//! What the operations of the IR build, stated over the record of the backend.
//!
//! Each relation says of two states of the record, one before an operation and
//! one after it, that the later one is the earlier one with exactly what the
//! operation builds added to it, in order, and that the handles it issued are
//! the next ones of their kind.

use vstd::prelude::*;
use std::rc::Rc;
use crate::commons::utils::map::spec_get;
use crate::ir::backend::{Backend, BinaryOp, Instr, Issued, ValueHandle, argument_entries, issued_after, names_next, type_entries};
use crate::ir::bools::spec_select_predicate;
use crate::ir::irstruct::funcs::IRFunction;
use crate::ir::irstruct::ptr::IRPointer;
use crate::ir::irstruct::staticvars::StaticContent;
use crate::ir::irstruct::structs::{IRStructuredType, spec_base_types};
use crate::ir::refs::{IRValueRef, IRValueRefKind};
use crate::ir::types::BOOL_TYPE_HASH;
use crate::ir::types::typing::{IRType, spec_base_type, spec_is_signed, spec_same_type};
use crate::ir::values::{IRNewValue, spec_is_integral};
use crate::lexer::toks::comp::ComparingOperator;

verus! {

/// A state of the backend's record: what was built, and how many handles of
/// each kind were issued.
pub struct Recorded {
    pub trace: Seq<Instr>,
    pub issued: Issued,
}

/// The state of a backend's record.
pub open spec fn spec_recorded(backend: Backend) -> Recorded {
    Recorded { trace: backend.emitted(), issued: backend.issued() }
}

/// `b` is `a` after exactly `instr` was built.
pub open spec fn spec_step(a: Recorded, b: Recorded, instr: Instr) -> bool {
    &&& b.trace == a.trace.push(instr)
    &&& names_next(a.issued, instr)
    &&& b.issued == issued_after(a.issued, instr)
}

/// `s` is a state that is reached from `a` by building: what `a` holds comes
/// first in it.
pub open spec fn spec_reached(a: Recorded, s: Recorded) -> bool {
    a.trace.is_prefix_of(s.trace)
}

/// Materializing a value reference: a stack location is loaded, a value is
/// taken as it is, a static variable gives its value or its address.
pub open spec fn spec_obtains(a: Recorded, b: Recorded, r: IRValueRef, v: IRNewValue) -> bool {
    match r.kind {
        IRValueRefKind::Ptr(t, p) => spec_same_type(*p.t, *t) && v.t == t && spec_step(
            a,
            b,
            Instr::Load { ptr: p.ptr, dest: v.value },
        ),
        IRValueRefKind::Val(x) => v == x && b == a,
        IRValueRefKind::Global(t, g) => v.t == t && v.value == (match g.content {
            StaticContent::Value(h) => h,
            StaticContent::Text(h) => h,
        }) && b == a,
        IRValueRefKind::TempString(_) => false,
    }
}

/// The value that a reference gives without anything being built: that of a
/// value or of a static variable. A stack location has to be loaded, and a
/// string literal that is still text gives none.
pub open spec fn spec_ready(r: IRValueRef) -> Option<IRNewValue> {
    match r.kind {
        IRValueRefKind::Val(x) => Some(x),
        IRValueRefKind::Global(t, g) => Some(
            IRNewValue {
                value: match g.content {
                    StaticContent::Value(h) => h,
                    StaticContent::Text(h) => h,
                },
                t,
            },
        ),
        _ => None,
    }
}

/// Whether the reference at place `k` gives its value without anything being
/// built.
pub open spec fn spec_ready_at(refs: Seq<IRValueRef>, k: int) -> bool {
    spec_ready(refs[k]) is Some
}

/// Whether the reference at place `k` is a string literal that is still text.
pub open spec fn spec_text_at(refs: Seq<IRValueRef>, k: int) -> bool {
    refs[k].kind is TempString
}

/// Whether each of the first `upto` references gives its value without
/// anything being built.
pub open spec fn spec_all_ready(refs: Seq<IRValueRef>, upto: int) -> bool {
    forall|k: int| 0 <= k < upto ==> #[trigger] spec_ready_at(refs, k)
}

/// Whether none of the first `upto` references is a string literal that is
/// still text.
pub open spec fn spec_none_text(refs: Seq<IRValueRef>, upto: int) -> bool {
    forall|k: int| 0 <= k < upto ==> !#[trigger] spec_text_at(refs, k)
}

/// Bringing an integer to an integer type: nothing is built where it has the
/// type already, a cast otherwise, which extends by the sign if the value's
/// own type is signed.
pub open spec fn spec_coerces(
    a: Recorded,
    b: Recorded,
    v: IRNewValue,
    target: IRType,
    out: ValueHandle,
) -> bool {
    spec_is_integral(*v.t) && spec_is_integral(target) && if spec_same_type(*v.t, target) {
        out == v.value && b == a
    } else {
        spec_step(
            a,
            b,
            Instr::IntCast {
                value: v.value,
                ty: spec_base_type(target),
                signed: spec_is_signed(*v.t),
                dest: out,
            },
        )
    }
}

/// Taking a stack slot: the slot is allocated, and the initial value, where
/// there is one, is materialized and stored into it.
pub open spec fn spec_takes_slot(
    a: Recorded,
    b: Recorded,
    t: Rc<IRType>,
    initial: Option<IRValueRef>,
    p: IRPointer,
) -> bool {
    p.t == t && exists|s: Recorded| #[trigger]
        spec_step(a, s, Instr::Alloca { ty: spec_base_type(*t), dest: p.ptr }) && match initial {
            None => b == s,
            Some(first) => exists|m: Recorded, v: IRNewValue| #[trigger]
                spec_obtains(s, m, first, v) && spec_step(
                    m,
                    b,
                    Instr::Store { ptr: p.ptr, value: v.value },
                ),
        }
}

/// Declaring a function in the module: an entry for the type of each
/// parameter, and the function, whose handle is the next one.
pub open spec fn spec_function_declared(a: Recorded, b: Recorded, f: IRFunction) -> bool {
    let params = Seq::new(f.args@.len(), |i: int| spec_base_type(*f.args@[i]));
    let ret = match f.ret_type {
        Some(t) => Some(spec_base_type(*t)),
        None => None,
    };
    &&& b.trace == (a.trace + type_entries(params, false)).push(
        Instr::Function { params: f.args@.len() as usize, ret, dest: f.func },
    )
    &&& f.func.index == a.issued.functions
    &&& b.issued == (Issued { functions: a.issued.functions + 1, ..a.issued })
}

/// Declaring an aggregate type: an entry for the type of each field, and the
/// structure type, whose handle is the next one. A struct is packed, a layout
/// is not.
pub open spec fn spec_struct_declared(a: Recorded, b: Recorded, d: IRStructuredType) -> bool {
    &&& b.trace == (a.trace + type_entries(spec_base_types(d.field_types@), true)).push(
        Instr::StructType {
            fields: d.field_types@.len() as usize,
            packed: !d.is_layout,
            dest: d.backend_type,
        },
    )
    &&& d.backend_type.index == a.issued.types
    &&& b.issued == (Issued { types: a.issued.types + 1, ..a.issued })
}

/// Materializing the arguments of a call, in order.
pub open spec fn spec_materializes(
    a: Recorded,
    b: Recorded,
    refs: Seq<IRValueRef>,
    handles: Seq<ValueHandle>,
) -> bool
    decreases refs.len(),
{
    if refs.len() == 0 {
        b == a && handles.len() == 0
    } else {
        handles.len() == refs.len() && exists|s: Recorded, v: IRNewValue| #[trigger]
            spec_obtains(a, s, refs[0], v) && handles[0] == v.value && spec_materializes(
                s,
                b,
                refs.subrange(1, refs.len() as int),
                handles.subrange(1, handles.len() as int),
            )
    }
}

/// The call itself, once its arguments are there: an entry for each argument
/// and the call, whose result is the next value if the function returns one.
pub open spec fn spec_call_built(
    a: Recorded,
    b: Recorded,
    f: IRFunction,
    handles: Seq<ValueHandle>,
    dest: Option<ValueHandle>,
) -> bool {
    let call = Instr::Call { func: f.func, args: handles.len() as usize, dest };
    &&& b.trace == (a.trace + argument_entries(handles)).push(call)
    &&& dest matches Some(d) ==> d.index == a.issued.values
    &&& b.issued == issued_after(a.issued, call)
}

/// Calling a function: the arguments are materialized, the call is built, and
/// where the result is asked for and there is one, it is stored to a new stack
/// slot, which is what the call hands back.
pub open spec fn spec_calls(
    a: Recorded,
    b: Recorded,
    f: IRFunction,
    refs: Seq<IRValueRef>,
    grab: bool,
    out: Option<IRPointer>,
) -> bool {
    exists|s: Recorded, m: Recorded, handles: Seq<ValueHandle>, dest: Option<ValueHandle>| #[trigger]
        spec_call_built(s, m, f, handles, dest) && spec_materializes(a, s, refs, handles) && (
        if grab && f.ret_type is Some && dest is Some {
            out is Some && spec_takes_slot(
                m,
                b,
                f.ret_type->Some_0,
                Some(
                    IRValueRef {
                        kind: IRValueRefKind::Val(
                            IRNewValue { value: dest->Some_0, t: f.ret_type->Some_0 },
                        ),
                    },
                ),
                out->Some_0,
            )
        } else {
            out is None && b == m
        })
}

/// Negating a boolean: it is materialized, and its exclusive or with the
/// constant one of the boolean type is built.
pub open spec fn spec_negates(
    types: Map<u64, Rc<IRType>>,
    a: Recorded,
    b: Recorded,
    r: IRValueRef,
    out: IRNewValue,
) -> bool {
    &&& Some(out.t) == spec_get(types, BOOL_TYPE_HASH)
    &&& exists|s: Recorded, v: IRNewValue| #[trigger]
        spec_obtains(a, s, r, v) && *v.t is Bool && exists|m: Recorded, one: ValueHandle| #[trigger]
            spec_step(
                s,
                m,
                Instr::ConstUnsigned { ty: spec_base_type(*out.t), value: 1, dest: one },
            ) && spec_step(
                m,
                b,
                Instr::Binary { op: BinaryOp::Xor, lhs: v.value, rhs: one, dest: out.value },
            )
}

/// Comparing two integers: both are materialized, the right one is brought to
/// the type of the left one, and the comparison is built with the predicate
/// that the operator has for the signedness of that type.
pub open spec fn spec_compares(
    types: Map<u64, Rc<IRType>>,
    a: Recorded,
    b: Recorded,
    x: IRValueRef,
    y: IRValueRef,
    comp: ComparingOperator,
    out: IRNewValue,
) -> bool {
    &&& Some(out.t) == spec_get(types, BOOL_TYPE_HASH)
    &&& exists|s1: Recorded, left: IRNewValue| #[trigger]
        spec_obtains(a, s1, x, left) && spec_is_integral(*left.t) && exists|
            s2: Recorded,
            right: IRNewValue,
        | #[trigger]
            spec_obtains(s1, s2, y, right) && exists|s3: Recorded, fitted: ValueHandle| #[trigger]
                spec_coerces(s2, s3, right, *left.t, fitted) && spec_step(
                    s3,
                    b,
                    Instr::Compare {
                        predicate: spec_select_predicate(comp, spec_is_signed(*left.t)),
                        lhs: left.value,
                        rhs: fitted,
                        dest: out.value,
                    },
                )
}

} // verus!

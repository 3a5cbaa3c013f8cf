//! The values of the IR: a self-contained representation, which checks
//! literals against widths, and the one that the lowering rules use, a value
//! of the code generator with its type.

use vstd::prelude::*;
use std::rc::Rc;
use crate::commons::err::{PositionlessError, PositionlessResult, fails_with};
use crate::commons::utils::num::{can_num_fit_inbits_signed, can_num_fit_inbits_unsigned, lemma_pow2_127, spec_fits_signed, spec_fits_unsigned};
use crate::errors::errors::{IR_BIT_SIZE, IR_EXPECTED_BOOL, IR_EXPECTED_NUMERIC, IR_NUM_FIT, IR_OBTAIN_TYPE, IR_TYPE_BOOL, IR_TYPE_SIGNED, IR_TYPE_UNSIGNED};
use crate::ir::backend::{Backend, Instr, ValueHandle};
use crate::ir::types::typing::{IRType, spec_base_type, spec_is_numeric, spec_is_signed, spec_same_type};
use crate::ir::utils::{backend_failed, backend_failure, share};

verus! {

/// A value that carries its own bits. It serves the checks on literals: width
/// and range.
#[derive(Debug, PartialEq)]
pub enum IRValue {
    Signed8(i8),
    Signed16(i16),
    Signed32(i32),
    Signed64(i64),
    Signed128(i128),
    Unsigned8(u8),
    Unsigned16(u16),
    Unsigned32(u32),
    Unsigned64(u64),
    Unsigned128(u128),
    Bool(bool),
    /// The field values and the hash of the type's name.
    Struct(Vec<Box<IRValue>>, u64),
    /// The field values and the hash of the type's name.
    Layout(Vec<Box<IRValue>>, u64),
}

/// Whether `sz` is one of the five widths that integers come in.
pub open spec fn spec_is_width(sz: usize) -> bool {
    sz == 8 || sz == 16 || sz == 32 || sz == 64 || sz == 128
}

/// Whether `num` lies within the bounds of a signed integer of `sz` bits. No
/// width is wider than 128 bits: what is asked of more is asked of 128.
pub open spec fn spec_fits_signed_width(sz: usize, num: int) -> bool {
    if sz == 0 {
        false
    } else if sz <= 128 {
        spec_fits_signed(sz as nat, num)
    } else {
        spec_fits_signed(128, num)
    }
}

/// Whether `num` lies within the bounds of an unsigned integer of `sz` bits,
/// of 128 bits where more are asked for.
pub open spec fn spec_fits_unsigned_width(sz: usize, num: int) -> bool {
    if sz <= 128 {
        spec_fits_unsigned(sz as nat, num)
    } else {
        spec_fits_unsigned(128, num)
    }
}

/// The number that a numeric value carries.
pub open spec fn spec_numeric_of(v: IRValue) -> Option<int> {
    match v {
        IRValue::Unsigned8(x) => Some(x as int),
        IRValue::Unsigned16(x) => Some(x as int),
        IRValue::Unsigned32(x) => Some(x as int),
        IRValue::Unsigned64(x) => Some(x as int),
        IRValue::Unsigned128(x) => Some(x as int),
        IRValue::Signed8(x) => Some(x as int),
        IRValue::Signed16(x) => Some(x as int),
        IRValue::Signed32(x) => Some(x as int),
        IRValue::Signed64(x) => Some(x as int),
        IRValue::Signed128(x) => Some(x as int),
        _ => None,
    }
}

fn fits_signed_width(sz: usize, num: i128) -> (r: bool)
    ensures
        r == spec_fits_signed_width(sz, num as int),
{
    if sz == 0 {
        false
    } else if sz <= 128 {
        can_num_fit_inbits_signed(sz, num)
    } else {
        proof {
            lemma_pow2_127();
        }
        true
    }
}

fn fits_unsigned_width(sz: usize, num: i128) -> (r: bool)
    ensures
        r == spec_fits_unsigned_width(sz, num as int),
{
    if sz <= 127 {
        can_num_fit_inbits_unsigned(sz, num)
    } else {
        proof {
            lemma_pow2_127();
            vstd::arithmetic::power2::lemma_pow2_unfold(128);
        }
        num >= 0
    }
}

impl IRValue {
    /// A signed value of `sz` bits that holds `val`. The number must lie within
    /// the bounds of the width, and the width must be one that integers come in.
    pub fn make_signed(sz: usize, val: i128) -> (r: PositionlessResult<IRValue>)
        ensures
            !spec_fits_signed_width(sz, val as int) ==> fails_with(r, IR_NUM_FIT),
            spec_fits_signed_width(sz, val as int) && !spec_is_width(sz) ==> fails_with(r, IR_BIT_SIZE),
            spec_fits_signed_width(sz, val as int) && spec_is_width(sz) ==> r is Ok && r->Ok_0 == (
            if sz == 8 {
                IRValue::Signed8(val as i8)
            } else if sz == 16 {
                IRValue::Signed16(val as i16)
            } else if sz == 32 {
                IRValue::Signed32(val as i32)
            } else if sz == 64 {
                IRValue::Signed64(val as i64)
            } else {
                IRValue::Signed128(val)
            }),
            r matches Ok(v) ==> spec_numeric_of(v) == Some(val as int),
    {
        proof {
            vstd::arithmetic::power2::lemma2_to64();
            vstd::arithmetic::power2::lemma2_to64_rest();
            lemma_pow2_127();
            vstd::arithmetic::power2::lemma_pow2_unfold(128);
        }
        if !fits_signed_width(sz, val) {
            return Err(PositionlessError::with_message(IR_NUM_FIT));
        }
        if sz == 8 {
            Ok(IRValue::Signed8(#[verifier::truncate] (val as i8)))
        } else if sz == 16 {
            Ok(IRValue::Signed16(#[verifier::truncate] (val as i16)))
        } else if sz == 32 {
            Ok(IRValue::Signed32(#[verifier::truncate] (val as i32)))
        } else if sz == 64 {
            Ok(IRValue::Signed64(#[verifier::truncate] (val as i64)))
        } else if sz == 128 {
            Ok(IRValue::Signed128(val))
        } else {
            Err(PositionlessError::with_message(IR_BIT_SIZE))
        }
    }

    /// An unsigned value of `sz` bits that holds `val`. The number must lie
    /// within the bounds of the width, and the width must be one that integers
    /// come in.
    pub fn make_unsigned(sz: usize, val: i128) -> (r: PositionlessResult<IRValue>)
        ensures
            !spec_fits_unsigned_width(sz, val as int) ==> fails_with(r, IR_NUM_FIT),
            spec_fits_unsigned_width(sz, val as int) && !spec_is_width(sz) ==> fails_with(r, IR_BIT_SIZE),
            spec_fits_unsigned_width(sz, val as int) && spec_is_width(sz) ==> r is Ok && r->Ok_0 == (
            if sz == 8 {
                IRValue::Unsigned8(val as u8)
            } else if sz == 16 {
                IRValue::Unsigned16(val as u16)
            } else if sz == 32 {
                IRValue::Unsigned32(val as u32)
            } else if sz == 64 {
                IRValue::Unsigned64(val as u64)
            } else {
                IRValue::Unsigned128(val as u128)
            }),
            r matches Ok(v) ==> spec_numeric_of(v) == Some(val as int),
    {
        proof {
            vstd::arithmetic::power2::lemma2_to64();
            vstd::arithmetic::power2::lemma2_to64_rest();
            lemma_pow2_127();
            vstd::arithmetic::power2::lemma_pow2_unfold(128);
        }
        if !fits_unsigned_width(sz, val) {
            return Err(PositionlessError::with_message(IR_NUM_FIT));
        }
        if sz == 8 {
            Ok(IRValue::Unsigned8(#[verifier::truncate] (val as u8)))
        } else if sz == 16 {
            Ok(IRValue::Unsigned16(#[verifier::truncate] (val as u16)))
        } else if sz == 32 {
            Ok(IRValue::Unsigned32(#[verifier::truncate] (val as u32)))
        } else if sz == 64 {
            Ok(IRValue::Unsigned64(#[verifier::truncate] (val as u64)))
        } else if sz == 128 {
            Ok(IRValue::Unsigned128(#[verifier::truncate] (val as u128)))
        } else {
            Err(PositionlessError::with_message(IR_BIT_SIZE))
        }
    }

    pub fn make_bool(val: bool) -> (r: IRValue)
        ensures
            r == IRValue::Bool(val),
    {
        IRValue::Bool(val)
    }

    /// The number that the value carries, if it is numeric and lies within the
    /// bounds of a signed or unsigned integer of `sz` bits. A number that is
    /// too large for what is handed back is refused like one that does not
    /// fit.
    pub fn expects_numeric_value(&self, sz: usize, signed: bool) -> (r: PositionlessResult<i128>)
        ensures
            match spec_numeric_of(*self) {
                None => fails_with(r, IR_EXPECTED_NUMERIC),
                Some(val) => if val <= i128::MAX && ((signed && spec_fits_signed_width(sz, val))
                    || (!signed && spec_fits_unsigned_width(sz, val))) {
                    r is Ok && r->Ok_0 == val
                } else {
                    fails_with(r, IR_NUM_FIT)
                },
            },
    {
        let val: i128 = match self {
            IRValue::Unsigned8(v) => *v as i128,
            IRValue::Unsigned16(v) => *v as i128,
            IRValue::Unsigned32(v) => *v as i128,
            IRValue::Unsigned64(v) => *v as i128,
            IRValue::Unsigned128(v) => {
                if *v > 0x7fff_ffff_ffff_ffff_ffff_ffff_ffff_ffffu128 {
                    return Err(PositionlessError::with_message(IR_NUM_FIT));
                }
                *v as i128
            },
            IRValue::Signed8(v) => *v as i128,
            IRValue::Signed16(v) => *v as i128,
            IRValue::Signed32(v) => *v as i128,
            IRValue::Signed64(v) => *v as i128,
            IRValue::Signed128(v) => *v,
            _ => {
                return Err(PositionlessError::with_message(IR_EXPECTED_NUMERIC));
            },
        };
        if signed {
            if !fits_signed_width(sz, val) {
                return Err(PositionlessError::with_message(IR_NUM_FIT));
            }
            return Ok(val);
        }
        if !fits_unsigned_width(sz, val) {
            return Err(PositionlessError::with_message(IR_NUM_FIT));
        }
        Ok(val)
    }

    /// The truth value that a boolean carries.
    pub fn expects_bool_value(&self) -> (r: PositionlessResult<bool>)
        ensures
            match *self {
                IRValue::Bool(v) => r == Ok::<bool, PositionlessError>(v),
                _ => fails_with(r, IR_EXPECTED_BOOL),
            },
    {
        match self {
            IRValue::Bool(v) => Ok(*v),
            _ => Err(PositionlessError::with_message(IR_EXPECTED_BOOL)),
        }
    }
}

/// A value of the code generator together with its type in the IR. Every use
/// of the value goes through a check of that type.
pub struct IRNewValue {
    pub value: ValueHandle,
    pub t: Rc<IRType>,
}

/// Whether a type is an integer to the code generator: the integer types and
/// the boolean.
pub open spec fn spec_is_integral(t: IRType) -> bool {
    spec_is_numeric(t) || t is Bool
}

/// Whether a type is an integer to the code generator.
pub fn is_integral(t: &IRType) -> (r: bool)
    ensures
        r == spec_is_integral(*t),
{
    t.is_numeric_type() || match t {
        IRType::Bool(_) => true,
        _ => false,
    }
}

impl IRNewValue {
    pub fn new(value: ValueHandle, t: Rc<IRType>) -> (r: Self)
        ensures
            r.value == value,
            r.t == t,
    {
        IRNewValue { value, t }
    }

    /// Another handle on the same value.
    pub fn duplicate(&self) -> (r: Self)
        ensures
            r == *self,
    {
        IRNewValue { value: self.value, t: share(&self.t) }
    }

    /// The constant `v` of the unsigned integer type `t`.
    pub fn from_unsigned<'ctx>(backend: &mut Backend<'ctx>, t: Rc<IRType>, v: u128) -> (r:
        PositionlessResult<Self>)
        ensures
            !spec_is_numeric(*t) || spec_is_signed(*t) ==> fails_with(r, IR_TYPE_UNSIGNED) && final(backend).idle(old(backend)),
            spec_is_numeric(*t) && !spec_is_signed(*t) ==> match r {
                Ok(val) => val.t == t && final(backend).built(
                    old(backend),
                    Instr::ConstUnsigned { ty: spec_base_type(*t), value: v, dest: val.value },
                ),
                Err(_) => backend_failed(r) && final(backend).idle(old(backend)),
            },
    {
        if !t.is_numeric_type() || t.is_signed() {
            return Err(PositionlessError::with_message(IR_TYPE_UNSIGNED));
        }
        let ty = t.get_inkwell_basetype();
        match backend.const_unsigned(ty, v) {
            Ok(value) => Ok(IRNewValue::new(value, t)),
            Err(e) => Err(backend_failure(e)),
        }
    }

    /// The constant `v` of the signed integer type `t`.
    pub fn from_signed<'ctx>(backend: &mut Backend<'ctx>, t: Rc<IRType>, v: i128) -> (r:
        PositionlessResult<Self>)
        ensures
            !spec_is_signed(*t) ==> fails_with(r, IR_TYPE_SIGNED) && final(backend).idle(
                old(backend),
            ),
            spec_is_signed(*t) ==> match r {
                Ok(val) => val.t == t && final(backend).built(
                    old(backend),
                    Instr::ConstSigned { ty: spec_base_type(*t), value: v, dest: val.value },
                ),
                Err(_) => backend_failed(r) && final(backend).idle(old(backend)),
            },
    {
        if !t.is_numeric_type() || !t.is_signed() {
            return Err(PositionlessError::with_message(IR_TYPE_SIGNED));
        }
        let ty = t.get_inkwell_basetype();
        match backend.const_signed(ty, v) {
            Ok(value) => Ok(IRNewValue::new(value, t)),
            Err(e) => Err(backend_failure(e)),
        }
    }

    /// The constant `val` of the boolean type `t`: one for true, zero for false.
    pub fn from_bool<'ctx>(backend: &mut Backend<'ctx>, val: bool, t: Rc<IRType>) -> (r:
        PositionlessResult<Self>)
        ensures
            !(*t is Bool) ==> fails_with(r, IR_TYPE_BOOL) && final(backend).idle(old(backend)),
            *t is Bool ==> match r {
                Ok(v) => v.t == t && final(backend).built(
                    old(backend),
                    Instr::ConstUnsigned {
                        ty: spec_base_type(*t),
                        value: if val {
                            1
                        } else {
                            0
                        },
                        dest: v.value,
                    },
                ),
                Err(_) => backend_failed(r) && final(backend).idle(old(backend)),
            },
    {
        let ty = match &*t {
            IRType::Bool(ty) => *ty,
            _ => {
                return Err(PositionlessError::with_message(IR_TYPE_BOOL));
            },
        };
        let bits: u128 = if val {
            1
        } else {
            0
        };
        match backend.const_unsigned(ty, bits) {
            Ok(value) => Ok(IRNewValue::new(value, t)),
            Err(e) => Err(backend_failure(e)),
        }
    }

    /// The value without its type. Nothing is checked.
    pub fn obtain(&self) -> (r: ValueHandle)
        ensures
            r == self.value,
    {
        self.value
    }

    /// The value as an integer, if its type is one of the integer types.
    pub fn obtain_as_int(&self) -> (r: Option<ValueHandle>)
        ensures
            r == if spec_is_numeric(*self.t) {
                Some(self.value)
            } else {
                None
            },
    {
        if !self.t.is_numeric_type() {
            return None;
        }
        Some(self.value)
    }

    /// The value as a boolean, if its type is the boolean.
    pub fn obtain_as_bool(&self) -> (r: Option<ValueHandle>)
        ensures
            r == if *self.t is Bool {
                Some(self.value)
            } else {
                None
            },
    {
        match &*self.t {
            IRType::Bool(_) => Some(self.value),
            _ => None,
        }
    }

    /// The value as an integer of type `target`. A value of that type is handed
    /// back as it is; one of another integer type is cast, extended by its sign
    /// if its own type is signed.
    pub fn coerce_to<'ctx>(&self, backend: &mut Backend<'ctx>, target: &Rc<IRType>) -> (r:
        PositionlessResult<ValueHandle>)
        ensures
            r matches Ok(out) ==> crate::ir::rules::spec_coerces(
                crate::ir::rules::spec_recorded(*old(backend)),
                crate::ir::rules::spec_recorded(*final(backend)),
                *self,
                **target,
                out,
            ),
            !spec_is_integral(*self.t) || !spec_is_integral(**target) ==> fails_with(
                r,
                IR_OBTAIN_TYPE,
            ) && final(backend).idle(old(backend)),
            spec_is_integral(*self.t) && spec_is_integral(**target) && spec_same_type(
                *self.t,
                **target,
            ) ==> r == Ok::<ValueHandle, PositionlessError>(self.value) && final(backend).idle(
                old(backend),
            ),
            spec_is_integral(*self.t) && spec_is_integral(**target) && !spec_same_type(
                *self.t,
                **target,
            ) ==> match r {
                Ok(dest) => final(backend).built(
                    old(backend),
                    Instr::IntCast {
                        value: self.value,
                        ty: spec_base_type(**target),
                        signed: spec_is_signed(*self.t),
                        dest,
                    },
                ),
                Err(_) => backend_failed(r) && final(backend).idle(old(backend)),
            },
    {
        if !is_integral(&self.t) || !is_integral(target) {
            return Err(PositionlessError::with_message(IR_OBTAIN_TYPE));
        }
        if self.t.is_same(target) {
            return Ok(self.value);
        }
        let ty = target.get_inkwell_basetype();
        match backend.build_int_cast(self.value, ty, self.t.is_signed(), "_cast") {
            Ok(dest) => Ok(dest),
            Err(e) => Err(backend_failure(e)),
        }
    }
}

} // verus!

//! The type descriptors of the IR.

use vstd::prelude::*;
use std::rc::Rc;
use crate::commons::err::{PositionlessError, PositionlessResult, fails_with};
use crate::commons::utils::num::{get_signed_highbound, get_signed_lowbound, get_unsigned_highbound, spec_signed_highbound, spec_signed_lowbound, spec_unsigned_highbound};
use crate::errors::errors::{IR_NOT_INT_TYPE, IR_NO_DESCRIPTOR};
use crate::ir::backend::TypeHandle;
use crate::ir::irstruct::structs::IRStructuredType;
use crate::ir::utils::share;

verus! {

/// A type of the IR: a primitive, which carries the code generator's type for
/// it, or an aggregate, which carries its descriptor.
pub enum IRType {
    Signed8(TypeHandle),
    Signed16(TypeHandle),
    Signed32(TypeHandle),
    Signed64(TypeHandle),
    Signed128(TypeHandle),
    Unsigned8(TypeHandle),
    Unsigned16(TypeHandle),
    Unsigned32(TypeHandle),
    Unsigned64(TypeHandle),
    Unsigned128(TypeHandle),
    Pointer(TypeHandle),
    Bool(TypeHandle),
    Struct(Rc<IRStructuredType>),
    Layout(Rc<IRStructuredType>),
}

/// The size of a type in bits. A boolean takes a byte and a pointer eight; an
/// aggregate takes the sum of its fields, with no padding between them.
pub open spec fn spec_bitsize(t: IRType) -> nat
    decreases t,
{
    match t {
        IRType::Signed8(_) | IRType::Unsigned8(_) | IRType::Bool(_) => 8,
        IRType::Signed16(_) | IRType::Unsigned16(_) => 16,
        IRType::Signed32(_) | IRType::Unsigned32(_) => 32,
        IRType::Signed64(_) | IRType::Unsigned64(_) => 64,
        IRType::Signed128(_) | IRType::Unsigned128(_) => 128,
        IRType::Pointer(_) => 64,
        IRType::Struct(d) => spec_fields_bitsize(d.field_types@),
        IRType::Layout(d) => spec_fields_bitsize(d.field_types@),
    }
}

/// The sum of the sizes of a list of field types.
pub open spec fn spec_fields_bitsize(fields: Seq<Rc<IRType>>) -> nat
    decreases fields,
{
    if fields.len() == 0 {
        0
    } else {
        spec_fields_bitsize(fields.drop_last()) + spec_bitsize(*fields.last())
    }
}

pub open spec fn spec_is_signed(t: IRType) -> bool {
    t is Signed8 || t is Signed16 || t is Signed32 || t is Signed64 || t is Signed128
}

pub open spec fn spec_is_unsigned(t: IRType) -> bool {
    t is Unsigned8 || t is Unsigned16 || t is Unsigned32 || t is Unsigned64 || t is Unsigned128
}

pub open spec fn spec_is_numeric(t: IRType) -> bool {
    spec_is_signed(t) || spec_is_unsigned(t)
}

/// The code generator's type of a value of type `t`.
pub open spec fn spec_base_type(t: IRType) -> TypeHandle {
    match t {
        IRType::Signed8(h)
        | IRType::Signed16(h)
        | IRType::Signed32(h)
        | IRType::Signed64(h)
        | IRType::Signed128(h)
        | IRType::Unsigned8(h)
        | IRType::Unsigned16(h)
        | IRType::Unsigned32(h)
        | IRType::Unsigned64(h)
        | IRType::Unsigned128(h)
        | IRType::Pointer(h)
        | IRType::Bool(h) => h,
        IRType::Struct(d) | IRType::Layout(d) => d.backend_type,
    }
}

/// Whether two types are the same: the same variant and, for aggregates, the
/// same name and the same kind of aggregate. Descriptors are never compared by
/// where they are stored.
pub open spec fn spec_same_type(a: IRType, b: IRType) -> bool {
    match (a, b) {
        (IRType::Signed8(_), IRType::Signed8(_)) => true,
        (IRType::Signed16(_), IRType::Signed16(_)) => true,
        (IRType::Signed32(_), IRType::Signed32(_)) => true,
        (IRType::Signed64(_), IRType::Signed64(_)) => true,
        (IRType::Signed128(_), IRType::Signed128(_)) => true,
        (IRType::Unsigned8(_), IRType::Unsigned8(_)) => true,
        (IRType::Unsigned16(_), IRType::Unsigned16(_)) => true,
        (IRType::Unsigned32(_), IRType::Unsigned32(_)) => true,
        (IRType::Unsigned64(_), IRType::Unsigned64(_)) => true,
        (IRType::Unsigned128(_), IRType::Unsigned128(_)) => true,
        (IRType::Pointer(_), IRType::Pointer(_)) => true,
        (IRType::Bool(_), IRType::Bool(_)) => true,
        (IRType::Struct(x), IRType::Struct(y)) => x.name@ == y.name@ && x.is_layout == y.is_layout,
        (IRType::Layout(x), IRType::Layout(y)) => x.name@ == y.name@ && x.is_layout == y.is_layout,
        _ => false,
    }
}

/// A type is the same type as itself.
pub proof fn lemma_same_type_reflexive(t: Rc<IRType>)
    ensures
        spec_same_type(*t, *t),
{
}

/// The upper bound of the values of a numeric type; zero for the other types.
pub open spec fn spec_numeric_high_bound(t: IRType) -> int {
    if spec_is_signed(t) {
        spec_signed_highbound(spec_bitsize(t))
    } else if spec_is_unsigned(t) {
        spec_unsigned_highbound(spec_bitsize(t))
    } else {
        0
    }
}

/// The lower bound of the values of a numeric type: -2^(bits-1) for a signed
/// type, zero for an unsigned one; zero for the other types.
pub open spec fn spec_numeric_low_bound(t: IRType) -> int {
    if spec_is_signed(t) {
        spec_signed_lowbound(spec_bitsize(t))
    } else {
        0
    }
}

/// A prefix of a field list is no larger than the list.
pub proof fn lemma_fields_bitsize_prefix(fields: Seq<Rc<IRType>>, i: int)
    requires
        0 <= i < fields.len(),
    ensures
        spec_fields_bitsize(fields.take(i + 1)) == spec_fields_bitsize(fields.take(i))
            + spec_bitsize(*fields[i]),
        spec_fields_bitsize(fields.take(i + 1)) <= spec_fields_bitsize(fields),
    decreases fields.len(),
{
    assert(fields.take(i + 1).drop_last() =~= fields.take(i));
    assert(fields.take(i + 1).last() == fields[i]);
    if i + 1 == fields.len() {
        assert(fields.take(i + 1) =~= fields);
    } else {
        lemma_fields_bitsize_prefix(fields.drop_last(), i);
        assert(fields.drop_last().take(i + 1) =~= fields.take(i + 1));
    }
}

impl IRType {
    /// The size of the type in bits.
    pub fn get_bitsize(&self) -> (r: usize)
        requires
            spec_bitsize(*self) <= usize::MAX,
        ensures
            r == spec_bitsize(*self),
        decreases self,
    {
        match self {
            IRType::Signed8(_) | IRType::Unsigned8(_) | IRType::Bool(_) => 8,
            IRType::Signed16(_) | IRType::Unsigned16(_) => 16,
            IRType::Signed32(_) | IRType::Unsigned32(_) => 32,
            IRType::Signed64(_) | IRType::Unsigned64(_) => 64,
            IRType::Signed128(_) | IRType::Unsigned128(_) => 128,
            IRType::Pointer(_) => 64,
            IRType::Struct(v) => {
                let mut sz: usize = 0;
                let mut i: usize = 0;
                while i < v.field_types.len()
                    invariant
                        *self is Struct,
                        self->Struct_0 == *v,
                        i <= v.field_types@.len(),
                        sz == spec_fields_bitsize(v.field_types@.take(i as int)),
                        spec_fields_bitsize(v.field_types@) <= usize::MAX,
                    decreases v.field_types@.len() - i,
                {
                    proof {
                        lemma_fields_bitsize_prefix(v.field_types@, i as int);
                        assert(decreases_to!(*self => self->Struct_0));
                        assert(decreases_to!(self->Struct_0 => v.field_types));
                    }
                    sz = sz + v.field_types[i].get_bitsize();
                    i += 1;
                }
                assert(v.field_types@.take(i as int) =~= v.field_types@);
                sz
            },
            IRType::Layout(v) => {
                let mut sz: usize = 0;
                let mut i: usize = 0;
                while i < v.field_types.len()
                    invariant
                        *self is Layout,
                        self->Layout_0 == *v,
                        i <= v.field_types@.len(),
                        sz == spec_fields_bitsize(v.field_types@.take(i as int)),
                        spec_fields_bitsize(v.field_types@) <= usize::MAX,
                    decreases v.field_types@.len() - i,
                {
                    proof {
                        lemma_fields_bitsize_prefix(v.field_types@, i as int);
                        assert(decreases_to!(*self => self->Layout_0));
                        assert(decreases_to!(self->Layout_0 => v.field_types));
                    }
                    sz = sz + v.field_types[i].get_bitsize();
                    i += 1;
                }
                assert(v.field_types@.take(i as int) =~= v.field_types@);
                sz
            },
        }
    }

    /// Whether the type is one of the ten integer types.
    pub fn is_numeric_type(&self) -> (r: bool)
        ensures
            r == spec_is_numeric(*self),
    {
        match self {
            IRType::Signed8(_)
            | IRType::Signed16(_)
            | IRType::Signed32(_)
            | IRType::Signed64(_)
            | IRType::Signed128(_)
            | IRType::Unsigned8(_)
            | IRType::Unsigned16(_)
            | IRType::Unsigned32(_)
            | IRType::Unsigned64(_)
            | IRType::Unsigned128(_) => true,
            _ => false,
        }
    }

    /// Whether the type is one of the five signed integer types.
    pub fn is_signed(&self) -> (r: bool)
        ensures
            r == spec_is_signed(*self),
    {
        match self {
            IRType::Signed8(_)
            | IRType::Signed16(_)
            | IRType::Signed32(_)
            | IRType::Signed64(_)
            | IRType::Signed128(_) => true,
            _ => false,
        }
    }

    /// The upper bound of the values of the type; zero if it is not numeric.
    /// That of the unsigned type of 128 bits does not fit what is handed back.
    pub fn get_numeric_high_bound(&self) -> (r: i128)
        requires
            !(*self is Unsigned128),
        ensures
            r == spec_numeric_high_bound(*self),
    {
        if !self.is_numeric_type() {
            return 0;
        }
        if self.is_signed() {
            return get_signed_highbound(self.get_bitsize());
        }
        get_unsigned_highbound(self.get_bitsize())
    }

    /// The lower bound of the values of the type; zero if it is not numeric.
    pub fn get_numeric_low_bound(&self) -> (r: i128)
        ensures
            r == spec_numeric_low_bound(*self),
    {
        if !self.is_numeric_type() {
            return 0;
        }
        if self.is_signed() {
            return get_signed_lowbound(self.get_bitsize());
        }
        0
    }

    /// The code generator's type of a value of this type.
    pub fn get_inkwell_basetype(&self) -> (r: TypeHandle)
        ensures
            r == spec_base_type(*self),
    {
        match self {
            IRType::Signed8(h)
            | IRType::Signed16(h)
            | IRType::Signed32(h)
            | IRType::Signed64(h)
            | IRType::Signed128(h)
            | IRType::Unsigned8(h)
            | IRType::Unsigned16(h)
            | IRType::Unsigned32(h)
            | IRType::Unsigned64(h)
            | IRType::Unsigned128(h)
            | IRType::Pointer(h)
            | IRType::Bool(h) => *h,
            IRType::Struct(d) => d.backend_type,
            IRType::Layout(d) => d.backend_type,
        }
    }

    /// The code generator's type of a parameter of this type: the same as that
    /// of a value of it.
    pub fn get_inkwell_base_metadatatype(&self) -> (r: TypeHandle)
        ensures
            r == spec_base_type(*self),
    {
        self.get_inkwell_basetype()
    }

    /// The code generator's type of an instance of this type as it is handed
    /// about: aggregates go by pointer, everything else by value.
    pub fn get_inkwell_instance_basetype(&self, pointer_type: TypeHandle) -> (r: TypeHandle)
        ensures
            r == if *self is Struct || *self is Layout {
                pointer_type
            } else {
                spec_base_type(*self)
            },
    {
        match self {
            IRType::Struct(_) | IRType::Layout(_) => pointer_type,
            _ => self.get_inkwell_basetype(),
        }
    }

    /// The code generator's integer type of this type. Only the integer types and
    /// the boolean, which is a narrow integer, have one.
    pub fn get_inkwell_inttype(&self) -> (r: PositionlessResult<TypeHandle>)
        ensures
            spec_is_numeric(*self) || *self is Bool ==> r == Ok::<TypeHandle, PositionlessError>(
                spec_base_type(*self),
            ),
            !(spec_is_numeric(*self) || *self is Bool) ==> fails_with(r, IR_NOT_INT_TYPE),
    {
        match self {
            IRType::Signed8(h)
            | IRType::Signed16(h)
            | IRType::Signed32(h)
            | IRType::Signed64(h)
            | IRType::Signed128(h)
            | IRType::Unsigned8(h)
            | IRType::Unsigned16(h)
            | IRType::Unsigned32(h)
            | IRType::Unsigned64(h)
            | IRType::Unsigned128(h)
            | IRType::Bool(h) => Ok(*h),
            _ => Err(PositionlessError::with_message(IR_NOT_INT_TYPE)),
        }
    }

    /// Whether `t` is the same type as this one.
    pub fn is_same(&self, t: &Rc<IRType>) -> (r: bool)
        ensures
            r == spec_same_type(*self, **t),
    {
        let other: &IRType = &**t;
        match (self, other) {
            (IRType::Signed8(_), IRType::Signed8(_)) => true,
            (IRType::Signed16(_), IRType::Signed16(_)) => true,
            (IRType::Signed32(_), IRType::Signed32(_)) => true,
            (IRType::Signed64(_), IRType::Signed64(_)) => true,
            (IRType::Signed128(_), IRType::Signed128(_)) => true,
            (IRType::Unsigned8(_), IRType::Unsigned8(_)) => true,
            (IRType::Unsigned16(_), IRType::Unsigned16(_)) => true,
            (IRType::Unsigned32(_), IRType::Unsigned32(_)) => true,
            (IRType::Unsigned64(_), IRType::Unsigned64(_)) => true,
            (IRType::Unsigned128(_), IRType::Unsigned128(_)) => true,
            (IRType::Pointer(_), IRType::Pointer(_)) => true,
            (IRType::Bool(_), IRType::Bool(_)) => true,
            (IRType::Struct(a), IRType::Struct(b)) => a.name == b.name && a.is_layout
                == b.is_layout,
            (IRType::Layout(a), IRType::Layout(b)) => a.name == b.name && a.is_layout
                == b.is_layout,
            _ => false,
        }
    }

    /// The descriptor of an aggregate type.
    pub fn get_structured_type_descriptor(&self) -> (r: PositionlessResult<Rc<IRStructuredType>>)
        ensures
            match *self {
                IRType::Struct(d) => r == Ok::<Rc<IRStructuredType>, PositionlessError>(d),
                IRType::Layout(d) => r == Ok::<Rc<IRStructuredType>, PositionlessError>(d),
                _ => fails_with(r, IR_NO_DESCRIPTOR),
            },
    {
        match self {
            IRType::Struct(e) => Ok(share(e)),
            IRType::Layout(e) => Ok(share(e)),
            _ => Err(PositionlessError::with_message(IR_NO_DESCRIPTOR)),
        }
    }

    /// Whether the type is an aggregate.
    pub fn has_structured_type_descriptor(&self) -> (r: bool)
        ensures
            r == (*self is Struct || *self is Layout),
    {
        match self {
            IRType::Struct(_) | IRType::Layout(_) => true,
            _ => false,
        }
    }
}

} // verus!

//! The instruction builder that the lowering rules drive.
//!
//! The code generator is an outside library. Its types, values, blocks and
//! functions are opaque here: the backend keeps each in an arena and hands out
//! plain indices, so that no handle carries a borrow of the code generator and
//! none is usable without the backend that issued it. Beside the arenas the
//! backend keeps a record of every instruction it was asked to build and did
//! build, in order: the contracts of the lowering rules are stated over that
//! record.

use vstd::prelude::*;
use vstd::string::StringSliceAdditionalSpecFns;
use inkwell::AddressSpace;
use inkwell::IntPredicate;
use inkwell::basic_block::BasicBlock;
use inkwell::builder::{Builder, BuilderError};
use inkwell::context::Context;
use inkwell::module::{Linkage, Module};
use inkwell::types::{BasicMetadataTypeEnum, BasicType, BasicTypeEnum, FunctionType, IntType, StringRadix};
use inkwell::values::{ArrayValue, BasicMetadataValueEnum, BasicValue, BasicValueEnum, FunctionValue, GlobalValue, IntValue, PointerValue, ValueKind};

verus! {

#[verifier::external_type_specification]
#[verifier::external_body]
pub struct ExContext(Context);

#[verifier::external_type_specification]
#[verifier::external_body]
pub struct ExModule<'ctx>(Module<'ctx>);

#[verifier::external_type_specification]
#[verifier::external_body]
pub struct ExBuilder<'ctx>(Builder<'ctx>);

#[verifier::external_type_specification]
#[verifier::external_body]
pub struct ExBuilderError(BuilderError);

#[verifier::external_type_specification]
#[verifier::external_body]
pub struct ExBasicBlock<'ctx>(BasicBlock<'ctx>);

#[verifier::external_type_specification]
#[verifier::external_body]
pub struct ExBasicTypeEnum<'ctx>(BasicTypeEnum<'ctx>);

#[verifier::external_type_specification]
#[verifier::external_body]
pub struct ExIntType<'ctx>(IntType<'ctx>);

#[verifier::external_type_specification]
#[verifier::external_body]
pub struct ExFunctionType<'ctx>(FunctionType<'ctx>);

#[verifier::external_type_specification]
#[verifier::external_body]
pub struct ExBasicValueEnum<'ctx>(BasicValueEnum<'ctx>);

#[verifier::external_type_specification]
#[verifier::external_body]
pub struct ExIntValue<'ctx>(IntValue<'ctx>);

#[verifier::external_type_specification]
#[verifier::external_body]
pub struct ExPointerValue<'ctx>(PointerValue<'ctx>);

#[verifier::external_type_specification]
#[verifier::external_body]
pub struct ExFunctionValue<'ctx>(FunctionValue<'ctx>);

#[verifier::external_type_specification]
#[verifier::external_body]
pub struct ExArrayValue<'ctx>(ArrayValue<'ctx>);

#[verifier::external_type_specification]
#[verifier::external_body]
pub struct ExGlobalValue<'ctx>(GlobalValue<'ctx>);

/// A type of the code generator, by its place in the backend's arena.
#[derive(Debug, Clone, Copy, PartialEq, Eq, Structural)]
pub struct TypeHandle {
    pub index: usize,
}

/// A value of the code generator (a constant, a pointer, the result of an
/// instruction), by its place in the backend's arena.
#[derive(Debug, Clone, Copy, PartialEq, Eq, Structural)]
pub struct ValueHandle {
    pub index: usize,
}

/// A basic block, by its place in the backend's arena.
#[derive(Debug, Clone, Copy, PartialEq, Eq, Structural)]
pub struct BlockHandle {
    pub index: usize,
}

/// A function of the module, by its place in the backend's arena.
#[derive(Debug, Clone, Copy, PartialEq, Eq, Structural)]
pub struct FunctionHandle {
    pub index: usize,
}

/// The integer operations with two operands.
#[derive(Debug, Clone, Copy, PartialEq, Eq, Structural)]
pub enum BinaryOp {
    Add,
    Sub,
    Mul,
    SignedDiv,
    Xor,
}

/// The predicates of an integer comparison. Ordering predicates come in a signed
/// and an unsigned form; equality does not.
#[derive(Debug, Clone, Copy, PartialEq, Eq, Structural)]
pub enum Predicate {
    Equal,
    NotEqual,
    SignedGreater,
    SignedGreaterEqual,
    SignedLess,
    SignedLessEqual,
    UnsignedGreater,
    UnsignedGreaterEqual,
    UnsignedLess,
    UnsignedLessEqual,
}

/// One entry of the backend's record: something that the backend was asked to
/// build and did build. `dest` is the handle that was issued for the result.
#[allow(inconsistent_fields)]
#[derive(Debug, Clone, Copy, PartialEq, Eq, Structural)]
pub enum Instr {
    IntType { bits: u32, dest: TypeHandle },
    PointerType { dest: TypeHandle },
    StructField { ty: TypeHandle },
    StructType { fields: usize, packed: bool, dest: TypeHandle },
    Parameter { ty: TypeHandle },
    Function { params: usize, ret: Option<TypeHandle>, dest: FunctionHandle },
    FunctionParam { func: FunctionHandle, index: u32, dest: ValueHandle },
    Block { func: FunctionHandle, dest: BlockHandle },
    Position { block: BlockHandle },
    ConstSigned { ty: TypeHandle, value: i128, dest: ValueHandle },
    ConstUnsigned { ty: TypeHandle, value: u128, dest: ValueHandle },
    GlobalString { len: usize, dest: ValueHandle },
    Alloca { ty: TypeHandle, dest: ValueHandle },
    Load { ptr: ValueHandle, dest: ValueHandle },
    Store { ptr: ValueHandle, value: ValueHandle },
    FieldPointer { ptr: ValueHandle, index: u32, dest: ValueHandle },
    Argument { value: ValueHandle },
    Call { func: FunctionHandle, args: usize, dest: Option<ValueHandle> },
    Binary { op: BinaryOp, lhs: ValueHandle, rhs: ValueHandle, dest: ValueHandle },
    Compare { predicate: Predicate, lhs: ValueHandle, rhs: ValueHandle, dest: ValueHandle },
    IntCast { value: ValueHandle, ty: TypeHandle, signed: bool, dest: ValueHandle },
    Branch { target: BlockHandle },
    ConditionalBranch { cond: ValueHandle, then_block: BlockHandle, else_block: BlockHandle },
    Return { value: Option<ValueHandle> },
}

/// How far a global of the module is seen: within the module, or from other
/// modules too.
#[derive(Debug, Clone, Copy, PartialEq, Eq, Structural)]
pub enum GlobalLinkage {
    Private,
    External,
}

/// Why the backend did not build what it was asked to.
#[derive(Debug, Clone, Copy, PartialEq, Eq, Structural)]
pub enum BackendError {
    /// A handle was given that this backend did not issue.
    UnknownHandle,
    /// A value was given where an integer is needed, and it is none.
    NotAnInteger,
    /// A value was given where a pointer is needed, and it is none.
    NotAPointer,
    /// The code generator refused the request.
    Refused,
}

/// Every handle of the list is below the number of types issued.
pub open spec fn all_types_known(handles: Seq<TypeHandle>, issued: nat) -> bool {
    forall|i: int| 0 <= i < handles.len() ==> (#[trigger] handles[i]).index < issued
}

/// Every handle of the list is below the number of values issued.
pub open spec fn all_values_known(handles: Seq<ValueHandle>, issued: nat) -> bool {
    forall|i: int| 0 <= i < handles.len() ==> (#[trigger] handles[i]).index < issued
}

/// Calls `Context::create_module`: a new, empty module of the context.
#[verifier::external_body]
fn raw_create_module<'ctx>(context: &'ctx Context, name: &str) -> Module<'ctx> {
    context.create_module(name)
}

/// Calls `Context::create_builder`: a new builder, not positioned anywhere.
#[verifier::external_body]
fn raw_create_builder<'ctx>(context: &'ctx Context) -> Builder<'ctx> {
    context.create_builder()
}

/// Calls `Context::custom_width_int_type`, which gives the integer type of the
/// given width and refuses only a width above 8388608. A width of zero is no
/// width: `NonZeroU32::new` gives nothing for it, and so does this.
#[verifier::external_body]
fn raw_int_type<'ctx>(context: &'ctx Context, bits: u32) -> (r: Option<BasicTypeEnum<'ctx>>)
    ensures
        r is Some <==> 1 <= bits <= 8388608,
{
    match core::num::NonZeroU32::new(bits) {
        Some(width) => match context.custom_width_int_type(width) {
            Ok(t) => Some(t.into()),
            Err(_) => None,
        },
        None => None,
    }
}

/// Calls `IntType::ptr_type` on the context's eight-bit integer type, in the
/// default address space: the type of a pointer to bytes.
#[verifier::external_body]
fn raw_pointer_type<'ctx>(context: &'ctx Context) -> BasicTypeEnum<'ctx> {
    context.i8_type().ptr_type(AddressSpace::default()).into()
}

/// Calls `Context::struct_type`: the structure type with these field types in
/// this order.
#[verifier::external_body]
fn raw_struct_type<'ctx>(
    context: &'ctx Context,
    fields: &Vec<BasicTypeEnum<'ctx>>,
    packed: bool,
) -> BasicTypeEnum<'ctx> {
    context.struct_type(fields.as_slice(), packed).into()
}

/// Calls `BasicType::fn_type` on the return type: the type of a function from
/// these parameter types, without variable arguments.
#[verifier::external_body]
fn raw_fn_type<'ctx>(
    ret: &BasicTypeEnum<'ctx>,
    params: &Vec<BasicTypeEnum<'ctx>>,
) -> FunctionType<'ctx> {
    let params: Vec<BasicMetadataTypeEnum<'ctx>> = params.iter().map(|t| (*t).into()).collect();
    ret.fn_type(&params, false)
}

/// Calls `VoidType::fn_type` on the context's void type: the type of a
/// function from these parameter types that returns nothing.
#[verifier::external_body]
fn raw_void_fn_type<'ctx>(
    context: &'ctx Context,
    params: &Vec<BasicTypeEnum<'ctx>>,
) -> FunctionType<'ctx> {
    let params: Vec<BasicMetadataTypeEnum<'ctx>> = params.iter().map(|t| (*t).into()).collect();
    context.void_type().fn_type(&params, false)
}

/// Calls `Module::add_function` without a linkage: a new function of the module.
#[verifier::external_body]
fn raw_add_function<'ctx>(
    module: &Module<'ctx>,
    name: &str,
    ty: FunctionType<'ctx>,
) -> FunctionValue<'ctx> {
    module.add_function(name, ty, None)
}

/// Calls `FunctionValue::get_nth_param`: the parameter at that place, if the
/// function has as many.
#[verifier::external_body]
fn raw_nth_param<'ctx>(func: &FunctionValue<'ctx>, index: u32) -> Option<BasicValueEnum<'ctx>>
    requires
        index < u32::MAX,
{
    func.get_nth_param(index)
}

/// Calls `Context::append_basic_block`: a new block at the end of the function.
#[verifier::external_body]
fn raw_append_block<'ctx>(
    context: &'ctx Context,
    func: &FunctionValue<'ctx>,
    name: &str,
) -> BasicBlock<'ctx> {
    context.append_basic_block(*func, name)
}

/// Calls `Builder::position_at_end`: what is built next goes to the end of the
/// block.
#[verifier::external_body]
fn raw_position_at_end<'ctx>(builder: &Builder<'ctx>, block: &BasicBlock<'ctx>) {
    builder.position_at_end(*block)
}

/// Calls `IntType::const_int_from_string` with the decimal radix: the constant
/// that the digits spell, unless the text is refused as no decimal number.
#[verifier::external_body]
fn raw_const_int<'ctx>(ty: &IntType<'ctx>, digits: &str) -> Option<BasicValueEnum<'ctx>> {
    match ty.const_int_from_string(digits, StringRadix::Decimal) {
        Some(v) => Some(v.into()),
        None => None,
    }
}

/// Calls `Context::const_string`: the constant array of these bytes, with a
/// zero byte after them if `terminated`.
#[verifier::external_body]
fn raw_const_string<'ctx>(context: &'ctx Context, bytes: &[u8], terminated: bool) -> ArrayValue<
    'ctx,
> {
    context.const_string(bytes, terminated)
}

/// Calls `Module::add_global` with the type that `ArrayValue::get_type` gives
/// for `value`, in the default address space: a new global of that type.
#[verifier::external_body]
fn raw_add_global<'ctx>(module: &Module<'ctx>, value: &ArrayValue<'ctx>, name: &str) -> GlobalValue<
    'ctx,
> {
    module.add_global(value.get_type(), None, name)
}

/// Calls `GlobalValue::set_linkage` with the code generator's linkage of the
/// same name.
#[verifier::external_body]
fn raw_set_linkage<'ctx>(global: &GlobalValue<'ctx>, linkage: GlobalLinkage) {
    let linkage = match linkage {
        GlobalLinkage::Private => Linkage::Private,
        GlobalLinkage::External => Linkage::External,
    };
    global.set_linkage(linkage)
}

/// Calls `GlobalValue::set_constant`.
#[verifier::external_body]
fn raw_set_constant<'ctx>(global: &GlobalValue<'ctx>, constant: bool) {
    global.set_constant(constant)
}

/// Calls `GlobalValue::set_unnamed_addr`.
#[verifier::external_body]
fn raw_set_unnamed_addr<'ctx>(global: &GlobalValue<'ctx>, unnamed: bool) {
    global.set_unnamed_addr(unnamed)
}

/// Calls `GlobalValue::set_initializer`.
#[verifier::external_body]
fn raw_set_initializer<'ctx>(global: &GlobalValue<'ctx>, value: &ArrayValue<'ctx>) {
    global.set_initializer(value)
}

/// Calls `GlobalValue::as_pointer_value`: the address of the global.
#[verifier::external_body]
fn raw_global_address<'ctx>(global: &GlobalValue<'ctx>) -> BasicValueEnum<'ctx> {
    global.as_pointer_value().into()
}

/// Calls `Builder::build_alloca`.
#[verifier::external_body]
fn raw_alloca<'ctx>(builder: &Builder<'ctx>, ty: &BasicTypeEnum<'ctx>, name: &str) -> Result<
    BasicValueEnum<'ctx>,
    BuilderError,
> {
    match builder.build_alloca(*ty, name) {
        Ok(p) => Ok(p.into()),
        Err(e) => Err(e),
    }
}

/// Calls `Builder::build_load`.
#[verifier::external_body]
fn raw_load<'ctx>(builder: &Builder<'ctx>, ptr: &PointerValue<'ctx>, name: &str) -> Result<
    BasicValueEnum<'ctx>,
    BuilderError,
> {
    builder.build_load(*ptr, name)
}

/// Calls `Builder::build_store`.
#[verifier::external_body]
fn raw_store<'ctx>(
    builder: &Builder<'ctx>,
    ptr: &PointerValue<'ctx>,
    value: &BasicValueEnum<'ctx>,
) -> Result<(), BuilderError> {
    match builder.build_store(*ptr, *value) {
        Ok(_) => Ok(()),
        Err(e) => Err(e),
    }
}

/// Calls `Builder::build_struct_gep`.
#[verifier::external_body]
fn raw_struct_gep<'ctx>(
    builder: &Builder<'ctx>,
    ptr: &PointerValue<'ctx>,
    index: u32,
    name: &str,
) -> Result<BasicValueEnum<'ctx>, BuilderError> {
    match builder.build_struct_gep(*ptr, index, name) {
        Ok(p) => Ok(p.into()),
        Err(e) => Err(e),
    }
}

/// Calls `Builder::build_call` and `CallSiteValue::try_as_basic_value`: the value
/// that the call returns, or nothing where the function returns nothing.
#[verifier::external_body]
fn raw_call<'ctx>(
    builder: &Builder<'ctx>,
    func: &FunctionValue<'ctx>,
    args: &Vec<BasicValueEnum<'ctx>>,
    name: &str,
) -> Result<Option<BasicValueEnum<'ctx>>, BuilderError> {
    let args: Vec<BasicMetadataValueEnum<'ctx>> = args.iter().map(|v| (*v).into()).collect();
    match builder.build_call(*func, &args, name) {
        Ok(site) => match site.try_as_basic_value() {
            ValueKind::Basic(v) => Ok(Some(v)),
            ValueKind::Instruction(_) => Ok(None),
        },
        Err(e) => Err(e),
    }
}

/// Calls `Builder::build_int_add`.
#[verifier::external_body]
fn raw_int_add<'ctx>(
    builder: &Builder<'ctx>,
    lhs: &IntValue<'ctx>,
    rhs: &IntValue<'ctx>,
    name: &str,
) -> Result<BasicValueEnum<'ctx>, BuilderError> {
    match builder.build_int_add(*lhs, *rhs, name) {
        Ok(v) => Ok(v.into()),
        Err(e) => Err(e),
    }
}

/// Calls `Builder::build_int_sub`.
#[verifier::external_body]
fn raw_int_sub<'ctx>(
    builder: &Builder<'ctx>,
    lhs: &IntValue<'ctx>,
    rhs: &IntValue<'ctx>,
    name: &str,
) -> Result<BasicValueEnum<'ctx>, BuilderError> {
    match builder.build_int_sub(*lhs, *rhs, name) {
        Ok(v) => Ok(v.into()),
        Err(e) => Err(e),
    }
}

/// Calls `Builder::build_int_mul`.
#[verifier::external_body]
fn raw_int_mul<'ctx>(
    builder: &Builder<'ctx>,
    lhs: &IntValue<'ctx>,
    rhs: &IntValue<'ctx>,
    name: &str,
) -> Result<BasicValueEnum<'ctx>, BuilderError> {
    match builder.build_int_mul(*lhs, *rhs, name) {
        Ok(v) => Ok(v.into()),
        Err(e) => Err(e),
    }
}

/// Calls `Builder::build_int_signed_div`.
#[verifier::external_body]
fn raw_int_signed_div<'ctx>(
    builder: &Builder<'ctx>,
    lhs: &IntValue<'ctx>,
    rhs: &IntValue<'ctx>,
    name: &str,
) -> Result<BasicValueEnum<'ctx>, BuilderError> {
    match builder.build_int_signed_div(*lhs, *rhs, name) {
        Ok(v) => Ok(v.into()),
        Err(e) => Err(e),
    }
}

/// Calls `Builder::build_xor`.
#[verifier::external_body]
fn raw_xor<'ctx>(
    builder: &Builder<'ctx>,
    lhs: &IntValue<'ctx>,
    rhs: &IntValue<'ctx>,
    name: &str,
) -> Result<BasicValueEnum<'ctx>, BuilderError> {
    match builder.build_xor(*lhs, *rhs, name) {
        Ok(v) => Ok(v.into()),
        Err(e) => Err(e),
    }
}

/// Calls `Builder::build_int_compare` with the code generator's predicate of
/// the same name.
#[verifier::external_body]
fn raw_int_compare<'ctx>(
    builder: &Builder<'ctx>,
    predicate: Predicate,
    lhs: &IntValue<'ctx>,
    rhs: &IntValue<'ctx>,
    name: &str,
) -> Result<BasicValueEnum<'ctx>, BuilderError> {
    let predicate = match predicate {
        Predicate::Equal => IntPredicate::EQ,
        Predicate::NotEqual => IntPredicate::NE,
        Predicate::SignedGreater => IntPredicate::SGT,
        Predicate::SignedGreaterEqual => IntPredicate::SGE,
        Predicate::SignedLess => IntPredicate::SLT,
        Predicate::SignedLessEqual => IntPredicate::SLE,
        Predicate::UnsignedGreater => IntPredicate::UGT,
        Predicate::UnsignedGreaterEqual => IntPredicate::UGE,
        Predicate::UnsignedLess => IntPredicate::ULT,
        Predicate::UnsignedLessEqual => IntPredicate::ULE,
    };
    builder.build_int_compare(predicate, *lhs, *rhs, name).map(|v| v.into())
}

/// Calls `Builder::build_int_cast_sign_flag`.
#[verifier::external_body]
fn raw_int_cast<'ctx>(
    builder: &Builder<'ctx>,
    value: &IntValue<'ctx>,
    ty: &IntType<'ctx>,
    signed: bool,
    name: &str,
) -> Result<BasicValueEnum<'ctx>, BuilderError> {
    match builder.build_int_cast_sign_flag(*value, *ty, signed, name) {
        Ok(v) => Ok(v.into()),
        Err(e) => Err(e),
    }
}

/// Calls `Builder::build_unconditional_branch`.
#[verifier::external_body]
fn raw_branch<'ctx>(builder: &Builder<'ctx>, target: &BasicBlock<'ctx>) -> Result<
    (),
    BuilderError,
> {
    match builder.build_unconditional_branch(*target) {
        Ok(_) => Ok(()),
        Err(e) => Err(e),
    }
}

/// Calls `Builder::build_conditional_branch`.
#[verifier::external_body]
fn raw_conditional_branch<'ctx>(
    builder: &Builder<'ctx>,
    cond: &IntValue<'ctx>,
    then_block: &BasicBlock<'ctx>,
    else_block: &BasicBlock<'ctx>,
) -> Result<(), BuilderError> {
    match builder.build_conditional_branch(*cond, *then_block, *else_block) {
        Ok(_) => Ok(()),
        Err(e) => Err(e),
    }
}

/// Calls `Builder::build_return`, with the value or with none.
#[verifier::external_body]
fn raw_return<'ctx>(builder: &Builder<'ctx>, value: Option<&BasicValueEnum<'ctx>>) -> Result<
    (),
    BuilderError,
> {
    match builder.build_return(value.map(|v| v as &dyn BasicValue<'ctx>)) {
        Ok(_) => Ok(()),
        Err(e) => Err(e),
    }
}

/// Tells the variants of `BasicValueEnum` apart: the integer in it, if it holds
/// one.
#[verifier::external_body]
fn value_as_int<'ctx>(value: &BasicValueEnum<'ctx>) -> Option<IntValue<'ctx>> {
    match value {
        BasicValueEnum::IntValue(v) => Some(*v),
        _ => None,
    }
}

/// Tells the variants of `BasicValueEnum` apart: the pointer in it, if it holds
/// one.
#[verifier::external_body]
fn value_as_pointer<'ctx>(value: &BasicValueEnum<'ctx>) -> Option<PointerValue<'ctx>> {
    match value {
        BasicValueEnum::PointerValue(v) => Some(*v),
        _ => None,
    }
}

/// Tells the variants of `BasicTypeEnum` apart: the integer type in it, if it
/// holds one.
#[verifier::external_body]
fn type_as_int<'ctx>(ty: &BasicTypeEnum<'ctx>) -> Option<IntType<'ctx>> {
    match ty {
        BasicTypeEnum::IntType(t) => Some(*t),
        _ => None,
    }
}

/// Calls `Module::print_to_string` and copies the text.
#[verifier::external_body]
fn raw_print_module<'ctx>(module: &Module<'ctx>) -> String {
    module.print_to_string().to_string()
}


/// How many handles of each kind a backend has issued.
pub struct Issued {
    pub types: nat,
    pub values: nat,
    pub blocks: nat,
    pub functions: nat,
}

/// The handles that building `instr` issues, added to `before`.
pub open spec fn issued_after(before: Issued, instr: Instr) -> Issued {
    match instr {
        Instr::IntType { .. } | Instr::PointerType { .. } | Instr::StructType { .. } => Issued {
            types: before.types + 1,
            ..before
        },
        Instr::Function { .. } => Issued { functions: before.functions + 1, ..before },
        Instr::Block { .. } => Issued { blocks: before.blocks + 1, ..before },
        Instr::FunctionParam { .. }
        | Instr::ConstSigned { .. }
        | Instr::ConstUnsigned { .. }
        | Instr::GlobalString { .. }
        | Instr::Alloca { .. }
        | Instr::Load { .. }
        | Instr::FieldPointer { .. }
        | Instr::Binary { .. }
        | Instr::Compare { .. }
        | Instr::IntCast { .. } => Issued { values: before.values + 1, ..before },
        Instr::Call { dest, .. } => if dest is Some {
            Issued { values: before.values + 1, ..before }
        } else {
            before
        },
        _ => before,
    }
}

/// The handle that `instr` names as its result is the next one of its kind.
pub open spec fn names_next(before: Issued, instr: Instr) -> bool {
    match instr {
        Instr::IntType { dest, .. } | Instr::PointerType { dest } | Instr::StructType {
            dest,
            ..
        } => dest.index == before.types,
        Instr::Function { dest, .. } => dest.index == before.functions,
        Instr::Block { dest, .. } => dest.index == before.blocks,
        Instr::FunctionParam { dest, .. }
        | Instr::ConstSigned { dest, .. }
        | Instr::ConstUnsigned { dest, .. }
        | Instr::GlobalString { dest, .. }
        | Instr::Alloca { dest, .. }
        | Instr::Load { dest, .. }
        | Instr::FieldPointer { dest, .. }
        | Instr::Binary { dest, .. }
        | Instr::Compare { dest, .. }
        | Instr::IntCast { dest, .. } => dest.index == before.values,
        Instr::Call { dest, .. } => dest matches Some(d) ==> d.index == before.values,
        _ => true,
    }
}

/// The arenas of the code generator's objects, its builder, and the record of
/// what was built.
pub struct Backend<'ctx> {
    context: &'ctx Context,
    module: Module<'ctx>,
    builder: Builder<'ctx>,
    types: Vec<BasicTypeEnum<'ctx>>,
    values: Vec<BasicValueEnum<'ctx>>,
    blocks: Vec<BasicBlock<'ctx>>,
    functions: Vec<FunctionValue<'ctx>>,
    trace: Vec<Instr>,
}

impl<'ctx> Backend<'ctx> {
    /// The record: what was built so far, in order.
    pub closed spec fn emitted(&self) -> Seq<Instr> {
        self.trace@
    }

    /// How many handles of each kind were issued so far.
    pub closed spec fn issued(&self) -> Issued {
        Issued {
            types: self.types@.len(),
            values: self.values@.len(),
            blocks: self.blocks@.len(),
            functions: self.functions@.len(),
        }
    }

    /// `self` is `before` after exactly `instr` was built: the record grew by
    /// `instr`, and the handle it names is the one that was issued for it.
    pub open spec fn built(&self, before: &Self, instr: Instr) -> bool {
        &&& self.emitted() == before.emitted().push(instr)
        &&& names_next(before.issued(), instr)
        &&& self.issued() == issued_after(before.issued(), instr)
    }

    /// `self` is `before`: nothing was built and no handle issued.
    pub open spec fn idle(&self, before: &Self) -> bool {
        self.emitted() == before.emitted() && self.issued() == before.issued()
    }

    /// `self` is `before` after some building: what was recorded and issued
    /// before still is.
    pub open spec fn advanced(&self, before: &Self) -> bool {
        &&& before.emitted().is_prefix_of(self.emitted())
        &&& before.issued().types <= self.issued().types
        &&& before.issued().values <= self.issued().values
        &&& before.issued().blocks <= self.issued().blocks
        &&& before.issued().functions <= self.issued().functions
    }

    /// A backend on a fresh module of `context`, with nothing built.
    pub fn new(context: &'ctx Context, module_name: &str) -> (r: Self)
        ensures
            r.emitted() == Seq::<Instr>::empty(),
            r.issued() == (Issued { types: 0, values: 0, blocks: 0, functions: 0 }),
    {
        Backend {
            context,
            module: raw_create_module(context, module_name),
            builder: raw_create_builder(context),
            types: Vec::new(),
            values: Vec::new(),
            blocks: Vec::new(),
            functions: Vec::new(),
            trace: Vec::new(),
        }
    }

    /// The record, for reading.
    pub fn trace(&self) -> (r: &Vec<Instr>)
        ensures
            r@ == self.emitted(),
    {
        &self.trace
    }

    /// How many blocks were issued so far: the index of the next one.
    pub fn blocks_issued(&self) -> (r: usize)
        ensures
            r == self.issued().blocks,
    {
        self.blocks.len()
    }

    /// The module as the code generator prints it.
    pub fn print(&self) -> String {
        raw_print_module(&self.module)
    }

    fn issue_type(&mut self, ty: BasicTypeEnum<'ctx>) -> (h: TypeHandle)
        ensures
            h.index == old(self).types@.len(),
            final(self).types@ == old(self).types@.push(ty),
            final(self).values == old(self).values,
            final(self).blocks == old(self).blocks,
            final(self).functions == old(self).functions,
            final(self).trace == old(self).trace,
    {
        let h = TypeHandle { index: self.types.len() };
        self.types.push(ty);
        h
    }

    fn issue_value(&mut self, value: BasicValueEnum<'ctx>) -> (h: ValueHandle)
        ensures
            h.index == old(self).values@.len(),
            final(self).values@ == old(self).values@.push(value),
            final(self).types == old(self).types,
            final(self).blocks == old(self).blocks,
            final(self).functions == old(self).functions,
            final(self).trace == old(self).trace,
    {
        let h = ValueHandle { index: self.values.len() };
        self.values.push(value);
        h
    }

    /// The integer type of `bits` bits. There is one for every width from 1
    /// to 8388608.
    pub fn int_type(&mut self, bits: u32) -> (r: Result<TypeHandle, BackendError>)
        ensures
            match r {
                Ok(dest) => final(self).built(old(self), Instr::IntType { bits, dest }),
                Err(e) => final(self).idle(old(self)) && e == BackendError::Refused,
            },
            r is Ok <==> 1 <= bits <= 8388608,
    {
        match raw_int_type(self.context, bits) {
            Some(ty) => {
                let dest = self.issue_type(ty);
                self.trace.push(Instr::IntType { bits, dest });
                Ok(dest)
            },
            None => Err(BackendError::Refused),
        }
    }

    /// The type of a pointer.
    pub fn pointer_type(&mut self) -> (dest: TypeHandle)
        ensures
            final(self).built(old(self), Instr::PointerType { dest }),
    {
        let ty = raw_pointer_type(self.context);
        let dest = self.issue_type(ty);
        self.trace.push(Instr::PointerType { dest });
        dest
    }

    /// The types that the handles of a list stand for, in order; nothing if
    /// one of them was not issued here.
    fn gather_types(&self, handles: &Vec<TypeHandle>) -> (r: Option<Vec<BasicTypeEnum<'ctx>>>)
        ensures
            r is Some == all_types_known(handles@, self.types@.len()),
            r matches Some(v) ==> v@.len() == handles@.len() && forall|k: int|
                0 <= k < v@.len() ==> #[trigger] v@[k] == self.types@[handles@[k].index as int],
    {
        let mut out: Vec<BasicTypeEnum<'ctx>> = Vec::new();
        let mut i: usize = 0;
        while i < handles.len()
            invariant
                i <= handles@.len(),
                out@.len() == i,
                forall|k: int| 0 <= k < i ==> (#[trigger] handles@[k]).index < self.types@.len(),
                forall|k: int|
                    0 <= k < i ==> #[trigger] out@[k] == self.types@[handles@[k].index as int],
            decreases handles@.len() - i,
        {
            if handles[i].index >= self.types.len() {
                return None;
            }
            out.push(self.types[handles[i].index]);
            i += 1;
        }
        Some(out)
    }

    /// The values that the handles of a list stand for, in order; nothing if
    /// one of them was not issued here.
    fn gather_values(&self, handles: &Vec<ValueHandle>) -> (r: Option<Vec<BasicValueEnum<'ctx>>>)
        ensures
            r is Some == all_values_known(handles@, self.values@.len()),
            r matches Some(v) ==> v@.len() == handles@.len() && forall|k: int|
                0 <= k < v@.len() ==> #[trigger] v@[k] == self.values@[handles@[k].index as int],
    {
        let mut out: Vec<BasicValueEnum<'ctx>> = Vec::new();
        let mut i: usize = 0;
        while i < handles.len()
            invariant
                i <= handles@.len(),
                out@.len() == i,
                forall|k: int| 0 <= k < i ==> (#[trigger] handles@[k]).index < self.values@.len(),
                forall|k: int|
                    0 <= k < i ==> #[trigger] out@[k] == self.values@[handles@[k].index as int],
            decreases handles@.len() - i,
        {
            if handles[i].index >= self.values.len() {
                return None;
            }
            out.push(self.values[handles[i].index]);
            i += 1;
        }
        Some(out)
    }

    /// Records one entry for each handle of a list, in order.
    fn record_types(&mut self, handles: &Vec<TypeHandle>, as_field: bool)
        ensures
            final(self).trace@ == old(self).trace@ + type_entries(handles@, as_field),
            final(self).types == old(self).types,
            final(self).values == old(self).values,
            final(self).blocks == old(self).blocks,
            final(self).functions == old(self).functions,
    {
        let mut i: usize = 0;
        while i < handles.len()
            invariant
                i <= handles@.len(),
                self.trace@ == old(self).trace@ + type_entries(handles@, as_field).subrange(
                    0,
                    i as int,
                ),
                self.types == old(self).types,
                self.values == old(self).values,
                self.blocks == old(self).blocks,
                self.functions == old(self).functions,
            decreases handles@.len() - i,
        {
            let ty = handles[i];
            let entry = if as_field {
                Instr::StructField { ty }
            } else {
                Instr::Parameter { ty }
            };
            self.trace.push(entry);
            assert(type_entries(handles@, as_field).subrange(0, i + 1) =~= type_entries(
                handles@,
                as_field,
            ).subrange(0, i as int).push(entry));
            i += 1;
        }
        assert(type_entries(handles@, as_field).subrange(0, i as int) =~= type_entries(
            handles@,
            as_field,
        ));
    }

    /// The structure type with the given field types, in their order.
    pub fn struct_type(&mut self, fields: &Vec<TypeHandle>, packed: bool) -> (r: Result<
        TypeHandle,
        BackendError,
    >)
        ensures
            match r {
                Ok(dest) => {
                    &&& all_types_known(fields@, old(self).issued().types)
                    &&& dest.index == old(self).issued().types
                    &&& final(self).emitted() == (old(self).emitted() + type_entries(
                        fields@,
                        true,
                    )).push(Instr::StructType { fields: fields@.len() as usize, packed, dest })
                    &&& final(self).issued() == (Issued {
                        types: old(self).issued().types + 1,
                        ..old(self).issued()
                    })
                },
                Err(e) => {
                    &&& final(self).idle(old(self))
                    &&& e == BackendError::UnknownHandle
                    &&& !all_types_known(fields@, old(self).issued().types)
                },
            },
    {
        let members = match self.gather_types(fields) {
            Some(v) => v,
            None => {
                return Err(BackendError::UnknownHandle);
            },
        };
        let ty = raw_struct_type(self.context, &members, packed);
        self.record_types(fields, true);
        let dest = self.issue_type(ty);
        self.trace.push(Instr::StructType { fields: fields.len(), packed, dest });
        Ok(dest)
    }

    /// Declares a function of the module with the given parameter types and
    /// return type; `None` is for a function that returns nothing.
    pub fn declare_function(
        &mut self,
        name: &str,
        ret: Option<TypeHandle>,
        params: &Vec<TypeHandle>,
    ) -> (r: Result<FunctionHandle, BackendError>)
        ensures
            match r {
                Ok(dest) => {
                    &&& all_types_known(params@, old(self).issued().types)
                    &&& ret matches Some(t) ==> t.index < old(self).issued().types
                    &&& dest.index == old(self).issued().functions
                    &&& final(self).emitted() == (old(self).emitted() + type_entries(
                        params@,
                        false,
                    )).push(Instr::Function { params: params@.len() as usize, ret, dest })
                    &&& final(self).issued() == (Issued {
                        functions: old(self).issued().functions + 1,
                        ..old(self).issued()
                    })
                },
                Err(e) => {
                    &&& final(self).idle(old(self))
                    &&& e == BackendError::UnknownHandle
                    &&& !(all_types_known(params@, old(self).issued().types) && (ret matches Some(
                        t,
                    ) ==> t.index < old(self).issued().types))
                },
            },
    {
        let taken = match self.gather_types(params) {
            Some(v) => v,
            None => {
                return Err(BackendError::UnknownHandle);
            },
        };
        let ty = match ret {
            Some(t) => {
                if t.index >= self.types.len() {
                    return Err(BackendError::UnknownHandle);
                }
                raw_fn_type(&self.types[t.index], &taken)
            },
            None => raw_void_fn_type(self.context, &taken),
        };
        let func = raw_add_function(&self.module, name, ty);
        self.record_types(params, false);
        let dest = FunctionHandle { index: self.functions.len() };
        self.functions.push(func);
        self.trace.push(Instr::Function { params: params.len(), ret, dest });
        Ok(dest)
    }

    /// The value of the parameter of `func` at place `index`.
    pub fn function_param(&mut self, func: FunctionHandle, index: u32) -> (r: Result<
        ValueHandle,
        BackendError,
    >)
        ensures
            match r {
                Ok(dest) => func.index < old(self).issued().functions && final(self).built(
                    old(self),
                    Instr::FunctionParam { func, index, dest },
                ),
                Err(e) => {
                    &&& final(self).idle(old(self))
                    &&& e != BackendError::UnknownHandle <==> func.index < old(self).issued().functions
                },
            },
    {
        if func.index >= self.functions.len() {
            return Err(BackendError::UnknownHandle);
        }
        if index == u32::MAX {
            return Err(BackendError::Refused);
        }
        match raw_nth_param(&self.functions[func.index], index) {
            Some(v) => {
                let dest = self.issue_value(v);
                self.trace.push(Instr::FunctionParam { func, index, dest });
                Ok(dest)
            },
            None => Err(BackendError::Refused),
        }
    }

    /// Appends a new basic block to `func`.
    pub fn append_block(&mut self, func: FunctionHandle, name: &str) -> (r: Result<
        BlockHandle,
        BackendError,
    >)
        ensures
            match r {
                Ok(dest) => func.index < old(self).issued().functions && final(self).built(
                    old(self),
                    Instr::Block { func, dest },
                ),
                Err(e) => {
                    &&& final(self).idle(old(self))
                    &&& e == BackendError::UnknownHandle
                    &&& func.index >= old(self).issued().functions
                },
            },
    {
        if func.index >= self.functions.len() {
            return Err(BackendError::UnknownHandle);
        }
        let block = raw_append_block(self.context, &self.functions[func.index], name);
        let dest = BlockHandle { index: self.blocks.len() };
        self.blocks.push(block);
        self.trace.push(Instr::Block { func, dest });
        Ok(dest)
    }

    /// Moves the insertion cursor to the end of `block`.
    pub fn position_at_end(&mut self, block: BlockHandle) -> (r: Result<(), BackendError>)
        ensures
            match r {
                Ok(_) => block.index < old(self).issued().blocks && final(self).built(
                    old(self),
                    Instr::Position { block },
                ),
                Err(e) => {
                    &&& final(self).idle(old(self))
                    &&& e == BackendError::UnknownHandle
                    &&& block.index >= old(self).issued().blocks
                },
            },
    {
        if block.index >= self.blocks.len() {
            return Err(BackendError::UnknownHandle);
        }
        raw_position_at_end(&self.builder, &self.blocks[block.index]);
        self.trace.push(Instr::Position { block });
        Ok(())
    }

    /// The constant `value` of the integer type `ty`.
    pub fn const_signed(&mut self, ty: TypeHandle, value: i128) -> (r: Result<
        ValueHandle,
        BackendError,
    >)
        ensures
            match r {
                Ok(dest) => ty.index < old(self).issued().types && final(self).built(
                    old(self),
                    Instr::ConstSigned { ty, value, dest },
                ),
                Err(e) => {
                    &&& final(self).idle(old(self))
                    &&& e != BackendError::UnknownHandle <==> ty.index < old(self).issued().types
                },
            },
    {
        if ty.index >= self.types.len() {
            return Err(BackendError::UnknownHandle);
        }
        let int_ty = match type_as_int(&self.types[ty.index]) {
            Some(t) => t,
            None => {
                return Err(BackendError::NotAnInteger);
            },
        };
        let digits = value.to_string();
        match raw_const_int(&int_ty, digits.as_str()) {
            Some(v) => {
                let dest = self.issue_value(v);
                self.trace.push(Instr::ConstSigned { ty, value, dest });
                Ok(dest)
            },
            None => Err(BackendError::Refused),
        }
    }

    /// The constant `value` of the integer type `ty`.
    pub fn const_unsigned(&mut self, ty: TypeHandle, value: u128) -> (r: Result<
        ValueHandle,
        BackendError,
    >)
        ensures
            match r {
                Ok(dest) => ty.index < old(self).issued().types && final(self).built(
                    old(self),
                    Instr::ConstUnsigned { ty, value, dest },
                ),
                Err(e) => {
                    &&& final(self).idle(old(self))
                    &&& e != BackendError::UnknownHandle <==> ty.index < old(self).issued().types
                },
            },
    {
        if ty.index >= self.types.len() {
            return Err(BackendError::UnknownHandle);
        }
        let int_ty = match type_as_int(&self.types[ty.index]) {
            Some(t) => t,
            None => {
                return Err(BackendError::NotAnInteger);
            },
        };
        let digits = value.to_string();
        match raw_const_int(&int_ty, digits.as_str()) {
            Some(v) => {
                let dest = self.issue_value(v);
                self.trace.push(Instr::ConstUnsigned { ty, value, dest });
                Ok(dest)
            },
            None => Err(BackendError::Refused),
        }
    }

    /// A constant global that holds the bytes of `text` and a zero byte after
    /// them; the value is the global's address. The global is private to the
    /// module, and its address is of no significance.
    pub fn global_string(&mut self, text: &str, name: &str) -> (dest: ValueHandle)
        ensures
            final(self).built(
                old(self),
                Instr::GlobalString { len: text.spec_bytes().len() as usize, dest },
            ),
    {
        let bytes = text.as_bytes();
        let array = raw_const_string(self.context, bytes, true);
        let global = raw_add_global(&self.module, &array, name);
        raw_set_linkage(&global, GlobalLinkage::Private);
        raw_set_constant(&global, true);
        raw_set_unnamed_addr(&global, true);
        raw_set_initializer(&global, &array);
        let v = raw_global_address(&global);
        let dest = self.issue_value(v);
        self.trace.push(Instr::GlobalString { len: bytes.len(), dest });
        dest
    }

    /// A stack slot for a value of type `ty`.
    pub fn build_alloca(&mut self, ty: TypeHandle, name: &str) -> (r: Result<
        ValueHandle,
        BackendError,
    >)
        ensures
            match r {
                Ok(dest) => ty.index < old(self).issued().types && final(self).built(
                    old(self),
                    Instr::Alloca { ty, dest },
                ),
                Err(e) => {
                    &&& final(self).idle(old(self))
                    &&& e != BackendError::UnknownHandle <==> ty.index < old(self).issued().types
                },
            },
    {
        if ty.index >= self.types.len() {
            return Err(BackendError::UnknownHandle);
        }
        match raw_alloca(&self.builder, &self.types[ty.index], name) {
            Ok(v) => {
                let dest = self.issue_value(v);
                self.trace.push(Instr::Alloca { ty, dest });
                Ok(dest)
            },
            Err(_) => Err(BackendError::Refused),
        }
    }

    /// Loads what `ptr` points to.
    pub fn build_load(&mut self, ptr: ValueHandle, name: &str) -> (r: Result<
        ValueHandle,
        BackendError,
    >)
        ensures
            match r {
                Ok(dest) => ptr.index < old(self).issued().values && final(self).built(
                    old(self),
                    Instr::Load { ptr, dest },
                ),
                Err(e) => {
                    &&& final(self).idle(old(self))
                    &&& e != BackendError::UnknownHandle <==> ptr.index < old(self).issued().values
                },
            },
    {
        if ptr.index >= self.values.len() {
            return Err(BackendError::UnknownHandle);
        }
        let p = match value_as_pointer(&self.values[ptr.index]) {
            Some(p) => p,
            None => {
                return Err(BackendError::NotAPointer);
            },
        };
        match raw_load(&self.builder, &p, name) {
            Ok(v) => {
                let dest = self.issue_value(v);
                self.trace.push(Instr::Load { ptr, dest });
                Ok(dest)
            },
            Err(_) => Err(BackendError::Refused),
        }
    }

    /// Stores `value` to where `ptr` points.
    pub fn build_store(&mut self, ptr: ValueHandle, value: ValueHandle) -> (r: Result<
        (),
        BackendError,
    >)
        ensures
            match r {
                Ok(_) => {
                    &&& ptr.index < old(self).issued().values
                    &&& value.index < old(self).issued().values
                    &&& final(self).built(old(self), Instr::Store { ptr, value })
                },
                Err(e) => {
                    &&& final(self).idle(old(self))
                    &&& e != BackendError::UnknownHandle <==> (ptr.index < old(self).issued().values && value.index < old(self).issued().values)
                },
            },
    {
        if ptr.index >= self.values.len() || value.index >= self.values.len() {
            return Err(BackendError::UnknownHandle);
        }
        let p = match value_as_pointer(&self.values[ptr.index]) {
            Some(p) => p,
            None => {
                return Err(BackendError::NotAPointer);
            },
        };
        match raw_store(&self.builder, &p, &self.values[value.index]) {
            Ok(_) => {
                self.trace.push(Instr::Store { ptr, value });
                Ok(())
            },
            Err(_) => Err(BackendError::Refused),
        }
    }

    /// The address of the field at place `index` of the structure that `ptr`
    /// points to.
    pub fn build_field_pointer(&mut self, ptr: ValueHandle, index: u32, name: &str) -> (r: Result<
        ValueHandle,
        BackendError,
    >)
        ensures
            match r {
                Ok(dest) => ptr.index < old(self).issued().values && final(self).built(
                    old(self),
                    Instr::FieldPointer { ptr, index, dest },
                ),
                Err(e) => {
                    &&& final(self).idle(old(self))
                    &&& e != BackendError::UnknownHandle <==> ptr.index < old(self).issued().values
                },
            },
    {
        if ptr.index >= self.values.len() {
            return Err(BackendError::UnknownHandle);
        }
        let p = match value_as_pointer(&self.values[ptr.index]) {
            Some(p) => p,
            None => {
                return Err(BackendError::NotAPointer);
            },
        };
        match raw_struct_gep(&self.builder, &p, index, name) {
            Ok(v) => {
                let dest = self.issue_value(v);
                self.trace.push(Instr::FieldPointer { ptr, index, dest });
                Ok(dest)
            },
            Err(_) => Err(BackendError::Refused),
        }
    }

    /// Records one argument entry for each handle of a list, in order.
    fn record_arguments(&mut self, handles: &Vec<ValueHandle>)
        ensures
            final(self).trace@ == old(self).trace@ + argument_entries(handles@),
            final(self).types == old(self).types,
            final(self).values == old(self).values,
            final(self).blocks == old(self).blocks,
            final(self).functions == old(self).functions,
    {
        let mut i: usize = 0;
        while i < handles.len()
            invariant
                i <= handles@.len(),
                self.trace@ == old(self).trace@ + argument_entries(handles@).subrange(0, i as int),
                self.types == old(self).types,
                self.values == old(self).values,
                self.blocks == old(self).blocks,
                self.functions == old(self).functions,
            decreases handles@.len() - i,
        {
            let entry = Instr::Argument { value: handles[i] };
            self.trace.push(entry);
            assert(argument_entries(handles@).subrange(0, i + 1) =~= argument_entries(
                handles@,
            ).subrange(0, i as int).push(entry));
            i += 1;
        }
        assert(argument_entries(handles@).subrange(0, i as int) =~= argument_entries(handles@));
    }

    /// Calls `func` with `args`. The result is the value that the call returns,
    /// if the function returns one.
    pub fn build_call(&mut self, func: FunctionHandle, args: &Vec<ValueHandle>, name: &str) -> (r:
        Result<Option<ValueHandle>, BackendError>)
        ensures
            match r {
                Ok(dest) => {
                    &&& func.index < old(self).issued().functions
                    &&& all_values_known(args@, old(self).issued().values)
                    &&& dest matches Some(d) ==> d.index == old(self).issued().values
                    &&& final(self).emitted() == (old(self).emitted() + argument_entries(
                        args@,
                    )).push(Instr::Call { func, args: args@.len() as usize, dest })
                    &&& final(self).issued() == issued_after(
                        old(self).issued(),
                        Instr::Call { func, args: args@.len() as usize, dest },
                    )
                },
                Err(e) => {
                    &&& final(self).idle(old(self))
                    &&& e != BackendError::UnknownHandle <==> (func.index < old(self).issued().functions && all_values_known(args@, old(self).issued().values))
                },
            },
    {
        if func.index >= self.functions.len() {
            return Err(BackendError::UnknownHandle);
        }
        let given = match self.gather_values(args) {
            Some(v) => v,
            None => {
                return Err(BackendError::UnknownHandle);
            },
        };
        match raw_call(&self.builder, &self.functions[func.index], &given, name) {
            Ok(result) => {
                self.record_arguments(args);
                let dest = match result {
                    Some(v) => Some(self.issue_value(v)),
                    None => None,
                };
                self.trace.push(Instr::Call { func, args: args.len(), dest });
                Ok(dest)
            },
            Err(_) => Err(BackendError::Refused),
        }
    }

    /// The result of the integer operation `op` on `lhs` and `rhs`.
    pub fn build_binary(&mut self, op: BinaryOp, lhs: ValueHandle, rhs: ValueHandle, name: &str) -> (r:
        Result<ValueHandle, BackendError>)
        ensures
            match r {
                Ok(dest) => {
                    &&& lhs.index < old(self).issued().values
                    &&& rhs.index < old(self).issued().values
                    &&& final(self).built(old(self), Instr::Binary { op, lhs, rhs, dest })
                },
                Err(e) => {
                    &&& final(self).idle(old(self))
                    &&& e != BackendError::UnknownHandle <==> (lhs.index < old(self).issued().values && rhs.index < old(self).issued().values)
                },
            },
    {
        if lhs.index >= self.values.len() || rhs.index >= self.values.len() {
            return Err(BackendError::UnknownHandle);
        }
        let a = match value_as_int(&self.values[lhs.index]) {
            Some(v) => v,
            None => {
                return Err(BackendError::NotAnInteger);
            },
        };
        let b = match value_as_int(&self.values[rhs.index]) {
            Some(v) => v,
            None => {
                return Err(BackendError::NotAnInteger);
            },
        };
        let built = match op {
            BinaryOp::Add => raw_int_add(&self.builder, &a, &b, name),
            BinaryOp::Sub => raw_int_sub(&self.builder, &a, &b, name),
            BinaryOp::Mul => raw_int_mul(&self.builder, &a, &b, name),
            BinaryOp::SignedDiv => raw_int_signed_div(&self.builder, &a, &b, name),
            BinaryOp::Xor => raw_xor(&self.builder, &a, &b, name),
        };
        match built {
            Ok(v) => {
                let dest = self.issue_value(v);
                self.trace.push(Instr::Binary { op, lhs, rhs, dest });
                Ok(dest)
            },
            Err(_) => Err(BackendError::Refused),
        }
    }

    /// The boolean result of comparing the integers `lhs` and `rhs`.
    pub fn build_compare(
        &mut self,
        predicate: Predicate,
        lhs: ValueHandle,
        rhs: ValueHandle,
        name: &str,
    ) -> (r: Result<ValueHandle, BackendError>)
        ensures
            match r {
                Ok(dest) => {
                    &&& lhs.index < old(self).issued().values
                    &&& rhs.index < old(self).issued().values
                    &&& final(self).built(old(self), Instr::Compare { predicate, lhs, rhs, dest })
                },
                Err(e) => {
                    &&& final(self).idle(old(self))
                    &&& e != BackendError::UnknownHandle <==> (lhs.index < old(self).issued().values && rhs.index < old(self).issued().values)
                },
            },
    {
        if lhs.index >= self.values.len() || rhs.index >= self.values.len() {
            return Err(BackendError::UnknownHandle);
        }
        let a = match value_as_int(&self.values[lhs.index]) {
            Some(v) => v,
            None => {
                return Err(BackendError::NotAnInteger);
            },
        };
        let b = match value_as_int(&self.values[rhs.index]) {
            Some(v) => v,
            None => {
                return Err(BackendError::NotAnInteger);
            },
        };
        match raw_int_compare(&self.builder, predicate, &a, &b, name) {
            Ok(v) => {
                let dest = self.issue_value(v);
                self.trace.push(Instr::Compare { predicate, lhs, rhs, dest });
                Ok(dest)
            },
            Err(_) => Err(BackendError::Refused),
        }
    }

    /// The integer `value` brought to the integer type `ty`, by extending it
    /// with or without its sign, or by truncating it.
    pub fn build_int_cast(&mut self, value: ValueHandle, ty: TypeHandle, signed: bool, name: &str) -> (r:
        Result<ValueHandle, BackendError>)
        ensures
            match r {
                Ok(dest) => {
                    &&& value.index < old(self).issued().values
                    &&& ty.index < old(self).issued().types
                    &&& final(self).built(old(self), Instr::IntCast { value, ty, signed, dest })
                },
                Err(e) => {
                    &&& final(self).idle(old(self))
                    &&& e != BackendError::UnknownHandle <==> (value.index < old(self).issued().values && ty.index < old(self).issued().types)
                },
            },
    {
        if value.index >= self.values.len() || ty.index >= self.types.len() {
            return Err(BackendError::UnknownHandle);
        }
        let a = match value_as_int(&self.values[value.index]) {
            Some(v) => v,
            None => {
                return Err(BackendError::NotAnInteger);
            },
        };
        let t = match type_as_int(&self.types[ty.index]) {
            Some(t) => t,
            None => {
                return Err(BackendError::NotAnInteger);
            },
        };
        match raw_int_cast(&self.builder, &a, &t, signed, name) {
            Ok(v) => {
                let dest = self.issue_value(v);
                self.trace.push(Instr::IntCast { value, ty, signed, dest });
                Ok(dest)
            },
            Err(_) => Err(BackendError::Refused),
        }
    }

    /// Ends the current block by jumping to `target`.
    pub fn build_branch(&mut self, target: BlockHandle) -> (r: Result<(), BackendError>)
        ensures
            match r {
                Ok(_) => target.index < old(self).issued().blocks && final(self).built(
                    old(self),
                    Instr::Branch { target },
                ),
                Err(e) => {
                    &&& final(self).idle(old(self))
                    &&& e != BackendError::UnknownHandle <==> target.index < old(self).issued().blocks
                },
            },
    {
        if target.index >= self.blocks.len() {
            return Err(BackendError::UnknownHandle);
        }
        match raw_branch(&self.builder, &self.blocks[target.index]) {
            Ok(_) => {
                self.trace.push(Instr::Branch { target });
                Ok(())
            },
            Err(_) => Err(BackendError::Refused),
        }
    }

    /// Ends the current block by jumping to `then_block` if `cond` is true and
    /// to `else_block` if it is not.
    pub fn build_conditional_branch(
        &mut self,
        cond: ValueHandle,
        then_block: BlockHandle,
        else_block: BlockHandle,
    ) -> (r: Result<(), BackendError>)
        ensures
            match r {
                Ok(_) => {
                    &&& cond.index < old(self).issued().values
                    &&& then_block.index < old(self).issued().blocks
                    &&& else_block.index < old(self).issued().blocks
                    &&& final(self).built(
                        old(self),
                        Instr::ConditionalBranch { cond, then_block, else_block },
                    )
                },
                Err(e) => {
                    &&& final(self).idle(old(self))
                    &&& e != BackendError::UnknownHandle <==> (cond.index < old(self).issued().values && then_block.index < old(self).issued().blocks
                        && else_block.index < old(self).issued().blocks)
                },
            },
    {
        if cond.index >= self.values.len() || then_block.index >= self.blocks.len()
            || else_block.index >= self.blocks.len() {
            return Err(BackendError::UnknownHandle);
        }
        let c = match value_as_int(&self.values[cond.index]) {
            Some(v) => v,
            None => {
                return Err(BackendError::NotAnInteger);
            },
        };
        match raw_conditional_branch(
            &self.builder,
            &c,
            &self.blocks[then_block.index],
            &self.blocks[else_block.index],
        ) {
            Ok(_) => {
                self.trace.push(Instr::ConditionalBranch { cond, then_block, else_block });
                Ok(())
            },
            Err(_) => Err(BackendError::Refused),
        }
    }

    /// Ends the current block by returning from the function, with `value` or
    /// with nothing.
    pub fn build_return(&mut self, value: Option<ValueHandle>) -> (r: Result<(), BackendError>)
        ensures
            match r {
                Ok(_) => {
                    &&& value matches Some(v) ==> v.index < old(self).issued().values
                    &&& final(self).built(old(self), Instr::Return { value })
                },
                Err(e) => {
                    &&& final(self).idle(old(self))
                    &&& e != BackendError::UnknownHandle <==> (value matches Some(v) ==> v.index
                        < old(self).issued().values)
                },
            },
    {
        let built = match value {
            Some(v) => {
                if v.index >= self.values.len() {
                    return Err(BackendError::UnknownHandle);
                }
                raw_return(&self.builder, Some(&self.values[v.index]))
            },
            None => raw_return(&self.builder, None),
        };
        match built {
            Ok(_) => {
                self.trace.push(Instr::Return { value });
                Ok(())
            },
            Err(_) => Err(BackendError::Refused),
        }
    }
}

/// The entries that are recorded for a list of field or parameter types.
pub open spec fn type_entries(handles: Seq<TypeHandle>, as_field: bool) -> Seq<Instr> {
    Seq::new(
        handles.len(),
        |i: int|
            if as_field {
                Instr::StructField { ty: handles[i] }
            } else {
                Instr::Parameter { ty: handles[i] }
            },
    )
}

/// The entries that are recorded for the arguments of a call.
pub open spec fn argument_entries(handles: Seq<ValueHandle>) -> Seq<Instr> {
    Seq::new(handles.len(), |i: int| Instr::Argument { value: handles[i] })
}

} // verus!

use std::rc::Rc;

use inkwell::context::Context;
use quickfall::commons::utils::map::HashedMap;
use quickfall::ir::backend::{
    Backend, BackendError, BinaryOp, BlockHandle, FunctionHandle, Instr, Predicate, TypeHandle,
    ValueHandle,
};
use quickfall::ir::bools::{make_bool_cmp_int, make_bool_xor, select_predicate};
use quickfall::ir::ctx::{IRContext, IRLocalContext};
use quickfall::ir::irstruct::funcs::IRFunction;
use quickfall::ir::irstruct::ptr::IRPointer;
use quickfall::ir::irstruct::staticvars::{IRStaticVariable, StaticContent};
use quickfall::ir::irstruct::structs::IRStructuredType;
use quickfall::ir::math::make_math_operation;
use quickfall::ir::refs::{IRValueRef, IRValueRefKind};
use quickfall::ir::types::storage::IRTypeStorage;
use quickfall::ir::types::typing::IRType;
use quickfall::ir::types::{
    BOOL_TYPE_HASH, POINTER_TYPE_HASH, SIGNED128_TYPE_HASH, SIGNED16_TYPE_HASH, SIGNED32_TYPE_HASH,
    SIGNED64_TYPE_HASH, SIGNED8_TYPE_HASH, STATICSTR_TYPE_HASH, UNSIGNED128_TYPE_HASH,
    UNSIGNED16_TYPE_HASH, UNSIGNED32_TYPE_HASH, UNSIGNED64_TYPE_HASH, UNSIGNED8_TYPE_HASH,
};
use quickfall::ir::utils::{LateInit, SelfHash};
use quickfall::ir::values::{IRNewValue, IRValue};
use quickfall::lexer::toks::comp::ComparingOperator;
use quickfall::lexer::toks::math::MathOperator;
use quickfall::utils::hash::WithHash;

/// The hash that the library gives to a name.
fn utils_get_hash(name: &str) -> u64 {
    WithHash::new(name.to_string()).hash
}

/// Another pointer to the same value.
fn share<T>(rc: &Rc<T>) -> Rc<T> {
    Rc::clone(rc)
}

fn typed(ctx: &IRContext, hash: u64) -> Rc<IRType> {
    ctx.type_storage.get(hash).unwrap()
}

/// A context with a function `host` whose entry block the cursor is in.
fn in_a_function<'ctx>(context: &'ctx Context) -> (IRContext<'ctx>, IRFunction) {
    let mut ctx = IRContext::new(context).unwrap();
    let func = IRFunction::create(&mut ctx.backend, "host".to_string(), None, vec![]).unwrap();
    assert!(func.prepare_body_filling(&mut ctx.backend));
    (ctx, func)
}

#[test]
fn type_hashes_are_the_hashes_of_the_type_names() {
    let names = [
        ("u8", UNSIGNED8_TYPE_HASH),
        ("u16", UNSIGNED16_TYPE_HASH),
        ("u32", UNSIGNED32_TYPE_HASH),
        ("u64", UNSIGNED64_TYPE_HASH),
        ("u128", UNSIGNED128_TYPE_HASH),
        ("i8", SIGNED8_TYPE_HASH),
        ("i16", SIGNED16_TYPE_HASH),
        ("i32", SIGNED32_TYPE_HASH),
        ("i64", SIGNED64_TYPE_HASH),
        ("i128", SIGNED128_TYPE_HASH),
        ("ptr", POINTER_TYPE_HASH),
        ("bool", BOOL_TYPE_HASH),
        ("staticstr", STATICSTR_TYPE_HASH),
    ];
    for (name, hash) in names {
        assert_eq!(utils_get_hash(name), hash, "{}", name);
    }
}

#[test]
fn registry_starts_with_the_primitives() {
    let context = Context::create();
    let ctx = IRContext::new(&context).unwrap();
    assert!(matches!(*typed(&ctx, UNSIGNED8_TYPE_HASH), IRType::Unsigned8(_)));
    assert!(matches!(*typed(&ctx, UNSIGNED16_TYPE_HASH), IRType::Unsigned16(_)));
    assert!(matches!(*typed(&ctx, UNSIGNED32_TYPE_HASH), IRType::Unsigned32(_)));
    assert!(matches!(*typed(&ctx, UNSIGNED64_TYPE_HASH), IRType::Unsigned64(_)));
    assert!(matches!(*typed(&ctx, UNSIGNED128_TYPE_HASH), IRType::Unsigned128(_)));
    assert!(matches!(*typed(&ctx, SIGNED8_TYPE_HASH), IRType::Signed8(_)));
    assert!(matches!(*typed(&ctx, SIGNED16_TYPE_HASH), IRType::Signed16(_)));
    assert!(matches!(*typed(&ctx, SIGNED32_TYPE_HASH), IRType::Signed32(_)));
    assert!(matches!(*typed(&ctx, SIGNED64_TYPE_HASH), IRType::Signed64(_)));
    assert!(matches!(*typed(&ctx, SIGNED128_TYPE_HASH), IRType::Signed128(_)));
    assert!(matches!(*typed(&ctx, POINTER_TYPE_HASH), IRType::Pointer(_)));
    assert!(matches!(*typed(&ctx, BOOL_TYPE_HASH), IRType::Bool(_)));
    assert!(matches!(*typed(&ctx, STATICSTR_TYPE_HASH), IRType::Pointer(_)));
    assert!(ctx.type_storage.get(12345).is_none());
    // The registry hands out the type that it holds, not a copy of it.
    assert!(Rc::ptr_eq(&typed(&ctx, BOOL_TYPE_HASH), &typed(&ctx, BOOL_TYPE_HASH)));
    assert_eq!(ctx.type_storage.map.entries().len(), 13);
    assert_eq!(typed(&ctx, POINTER_TYPE_HASH).get_inkwell_basetype(), ctx.ptr_type);
    assert_eq!(ctx.get_inkwell_pointertype(), TypeHandle { index: 6 });
    assert_eq!(
        typed(&ctx, SIGNED32_TYPE_HASH).get_inkwell_base_metadatatype(),
        TypeHandle { index: 2 }
    );
    // Eight, 16, 32, 64, 128 and one bit, then the pointer type.
    assert_eq!(
        ctx.backend.trace()[..7],
        [
            Instr::IntType { bits: 8, dest: TypeHandle { index: 0 } },
            Instr::IntType { bits: 16, dest: TypeHandle { index: 1 } },
            Instr::IntType { bits: 32, dest: TypeHandle { index: 2 } },
            Instr::IntType { bits: 64, dest: TypeHandle { index: 3 } },
            Instr::IntType { bits: 128, dest: TypeHandle { index: 4 } },
            Instr::IntType { bits: 1, dest: TypeHandle { index: 5 } },
            Instr::PointerType { dest: TypeHandle { index: 6 } },
        ]
    );
}

#[test]
fn registry_insert_overwrites() {
    let context = Context::create();
    let mut backend = Backend::new(&context, "m");
    let mut storage = IRTypeStorage::new(&mut backend).unwrap();
    storage.insert(77, IRType::Bool(TypeHandle { index: 5 }));
    assert!(matches!(*storage.get(77).unwrap(), IRType::Bool(_)));
    storage.insert(77, IRType::Signed8(TypeHandle { index: 0 }));
    assert!(matches!(*storage.get(77).unwrap(), IRType::Signed8(_)));
    assert!(matches!(*storage.get(BOOL_TYPE_HASH).unwrap(), IRType::Bool(_)));
}

#[test]
fn sizes_signs_and_bounds_of_types() {
    let context = Context::create();
    let ctx = IRContext::new(&context).unwrap();
    let i32_t = typed(&ctx, SIGNED32_TYPE_HASH);
    let u16_t = typed(&ctx, UNSIGNED16_TYPE_HASH);
    let bool_t = typed(&ctx, BOOL_TYPE_HASH);
    let ptr_t = typed(&ctx, POINTER_TYPE_HASH);
    assert_eq!(i32_t.get_bitsize(), 32);
    assert_eq!(u16_t.get_bitsize(), 16);
    assert_eq!(bool_t.get_bitsize(), 8);
    assert_eq!(ptr_t.get_bitsize(), 64);
    assert_eq!(typed(&ctx, SIGNED128_TYPE_HASH).get_bitsize(), 128);
    assert!(i32_t.is_numeric_type() && i32_t.is_signed());
    assert!(u16_t.is_numeric_type() && !u16_t.is_signed());
    assert!(!bool_t.is_numeric_type() && !bool_t.is_signed());
    assert_eq!(i32_t.get_numeric_high_bound(), 2147483647);
    assert_eq!(i32_t.get_numeric_low_bound(), -2147483648);
    assert_eq!(u16_t.get_numeric_high_bound(), 65535);
    assert_eq!(u16_t.get_numeric_low_bound(), 0);
    assert_eq!(typed(&ctx, SIGNED128_TYPE_HASH).get_numeric_high_bound(), i128::MAX);
    assert_eq!(typed(&ctx, SIGNED128_TYPE_HASH).get_numeric_low_bound(), i128::MIN);
    assert_eq!(typed(&ctx, UNSIGNED128_TYPE_HASH).get_numeric_low_bound(), 0);
    assert_eq!(bool_t.get_numeric_high_bound(), 0);
    assert_eq!(ptr_t.get_numeric_low_bound(), 0);
    assert!(i32_t.get_inkwell_inttype().is_ok());
    assert!(bool_t.get_inkwell_inttype().is_ok());
    assert_eq!(
        ptr_t.get_inkwell_inttype().unwrap_err().reason,
        "get_inkwell_inttype was used with a non int typed IRType!"
    );
    assert!(!i32_t.has_structured_type_descriptor());
    assert_eq!(
        i32_t.get_structured_type_descriptor().err().unwrap().reason,
        "Given IRType doesn't have a structured type descriptor!"
    );
    assert_eq!(i32_t.get_inkwell_instance_basetype(ctx.ptr_type), i32_t.get_inkwell_basetype());
}

#[test]
fn types_are_the_same_by_variant_and_name() {
    let context = Context::create();
    let mut ctx = IRContext::new(&context).unwrap();
    let i32_t = typed(&ctx, SIGNED32_TYPE_HASH);
    let u32_t = typed(&ctx, UNSIGNED32_TYPE_HASH);
    assert!(i32_t.is_same(&typed(&ctx, SIGNED32_TYPE_HASH)));
    assert!(!i32_t.is_same(&u32_t));
    assert!(typed(&ctx, POINTER_TYPE_HASH).is_same(&typed(&ctx, STATICSTR_TYPE_HASH)));
    let make = |ctx: &mut IRContext, name: &str, layout: bool| {
        let fields = vec![(1u64, ctx.type_storage.get(SIGNED32_TYPE_HASH).unwrap())];
        let d = IRStructuredType::new(&mut ctx.backend, name.to_string(), layout, fields).unwrap();
        if layout {
            Rc::new(IRType::Layout(Rc::new(d)))
        } else {
            Rc::new(IRType::Struct(Rc::new(d)))
        }
    };
    let a = make(&mut ctx, "point", false);
    let again = make(&mut ctx, "point", false);
    let other = make(&mut ctx, "size", false);
    let shape = make(&mut ctx, "point", true);
    assert!(a.is_same(&again));
    assert!(!a.is_same(&other));
    assert!(!a.is_same(&shape));
    assert!(!a.is_same(&i32_t));
    assert!(a.has_structured_type_descriptor());
    assert_eq!(a.get_structured_type_descriptor().unwrap().name, "point");
    assert_eq!(a.get_inkwell_instance_basetype(ctx.ptr_type), ctx.ptr_type);
}

#[test]
fn aggregate_fields_are_addressed_by_their_own_index() {
    let context = Context::create();
    let (mut ctx, _func) = in_a_function(&context);
    let ha = utils_get_hash("a");
    let hb = utils_get_hash("b");
    let i32_t = typed(&ctx, SIGNED32_TYPE_HASH);
    let bool_t = typed(&ctx, BOOL_TYPE_HASH);
    let descriptor = IRStructuredType::new(
        &mut ctx.backend,
        "pair".to_string(),
        false,
        vec![(ha, share(&i32_t)), (hb, share(&bool_t))],
    )
    .unwrap();
    assert_eq!(descriptor.field_to_index.get(ha), Some(&0));
    assert_eq!(descriptor.field_to_index.get(hb), Some(&1));
    assert_eq!(descriptor.field_types.len(), 2);
    assert!(!descriptor.is_layout);
    let pair = Rc::new(IRType::Struct(Rc::new(descriptor)));
    assert_eq!(pair.get_bitsize(), 40);
    let instance = IRPointer::create(&mut ctx.backend, "p".to_string(), share(&pair), None).unwrap();
    let descriptor = pair.get_structured_type_descriptor().unwrap();

    let before = ctx.backend.trace().len();
    let to_b = descriptor.get_pointer_for_field(&mut ctx.backend, &instance, hb).unwrap();
    assert!(matches!(*to_b.t, IRType::Bool(_)));
    assert_eq!(
        ctx.backend.trace()[before],
        Instr::FieldPointer { ptr: instance.ptr, index: 1, dest: to_b.ptr }
    );
    let to_a = descriptor.get_pointer_for_field_noref(&mut ctx.backend, instance.duplicate(), ha).unwrap();
    assert!(matches!(*to_a.t, IRType::Signed32(_)));
    assert_eq!(
        *ctx.backend.trace().last().unwrap(),
        Instr::FieldPointer { ptr: instance.ptr, index: 0, dest: to_a.ptr }
    );
    assert_ne!(to_a.ptr, to_b.ptr);

    let unknown = descriptor.get_pointer_for_field(&mut ctx.backend, &instance, 99).err().unwrap();
    assert_eq!(unknown.reason, "Unknown field inside of the current context.");
    let past = descriptor.get_pointer_for_field_index(&mut ctx.backend, &instance, 2).err().unwrap();
    assert_eq!(past.reason, "Invalid index given to get_pointer_for_field_index");
    assert!(descriptor.get_pointer_for_field_index_noref(&mut ctx.backend, instance.duplicate(), 1).is_ok());

    let text = ctx.backend.print();
    assert!(text.contains("getelementptr inbounds <{ i32, i1 }>"), "{}", text);
    assert!(text.contains("i32 0, i32 1"), "{}", text);
}

#[test]
fn later_field_of_the_same_name_is_the_one_found() {
    let context = Context::create();
    let mut ctx = IRContext::new(&context).unwrap();
    let i32_t = typed(&ctx, SIGNED32_TYPE_HASH);
    let d = IRStructuredType::new(
        &mut ctx.backend,
        "twice".to_string(),
        true,
        vec![(5, share(&i32_t)), (6, share(&i32_t)), (5, share(&i32_t))],
    )
    .unwrap();
    assert_eq!(d.field_to_index.get(5), Some(&2));
    assert_eq!(d.field_to_index.get(6), Some(&1));
}

#[test]
fn layout_takes_no_member_functions() {
    let context = Context::create();
    let mut ctx = IRContext::new(&context).unwrap();
    let f = || IRFunction::new_shadow("m".to_string(), FunctionHandle { index: 0 }, None, vec![]);
    let mut layout = IRStructuredType::new(&mut ctx.backend, "l".to_string(), true, vec![]).unwrap();
    let refused = layout.append_function(1, f()).unwrap_err();
    assert_eq!(
        refused.reason,
        "Cannot declare member functions inside of a layout. Consider removing the functions or switching the type to be a struct."
    );
    assert!(layout.functions.entries().is_empty());
    assert_eq!(
        layout.get_function(1).err().unwrap().reason,
        "Cannot use member functions inside of a layout.\nPlease send a bug report at https://github.com/quickfall/quickfall"
    );

    let mut plain = IRStructuredType::new(&mut ctx.backend, "s".to_string(), false, vec![]).unwrap();
    assert_eq!(plain.append_function(1, f()).unwrap(), true);
    assert_eq!(plain.get_function(1).unwrap().name, "m");
    assert_eq!(
        plain.get_function(2).err().unwrap().reason,
        "Function was not found within the struct!"
    );
}

#[test]
fn self_contained_values_check_width_and_range() {
    assert_eq!(IRValue::make_signed(8, -5).unwrap(), IRValue::Signed8(-5));
    assert_eq!(IRValue::make_signed(16, 300).unwrap(), IRValue::Signed16(300));
    assert_eq!(IRValue::make_signed(32, -70000).unwrap(), IRValue::Signed32(-70000));
    assert_eq!(IRValue::make_signed(64, 1 << 40).unwrap(), IRValue::Signed64(1 << 40));
    assert_eq!(IRValue::make_signed(128, i128::MIN).unwrap(), IRValue::Signed128(i128::MIN));
    assert_eq!(
        IRValue::make_signed(8, 128).unwrap_err().reason,
        "Cannot fit the given number value into the given bits!"
    );
    assert_eq!(IRValue::make_signed(8, -128).unwrap(), IRValue::Signed8(-128));
    assert_eq!(
        IRValue::make_signed(8, -129).unwrap_err().reason,
        "Cannot fit the given number value into the given bits!"
    );
    assert_eq!(IRValue::make_signed(7, 1).unwrap_err().reason, "Invalid bit size!");
    assert!(IRValue::make_signed(0, 0).is_err());
    assert_eq!(IRValue::make_signed(129, 0).unwrap_err().reason, "Invalid bit size!");

    assert_eq!(IRValue::make_unsigned(8, 255).unwrap(), IRValue::Unsigned8(255));
    assert_eq!(IRValue::make_unsigned(16, 65535).unwrap(), IRValue::Unsigned16(65535));
    assert_eq!(IRValue::make_unsigned(32, 7).unwrap(), IRValue::Unsigned32(7));
    assert_eq!(IRValue::make_unsigned(64, 1 << 63).unwrap(), IRValue::Unsigned64(1 << 63));
    assert_eq!(IRValue::make_unsigned(128, i128::MAX).unwrap(), IRValue::Unsigned128(i128::MAX as u128));
    assert!(IRValue::make_unsigned(8, 256).is_err());
    assert!(IRValue::make_unsigned(8, -1).is_err());
    assert!(IRValue::make_unsigned(128, -1).is_err());
    assert_eq!(IRValue::make_unsigned(12, 1).unwrap_err().reason, "Invalid bit size!");

    assert_eq!(IRValue::make_bool(true), IRValue::Bool(true));
    assert_eq!(IRValue::Bool(false).expects_bool_value().unwrap(), false);
    assert_eq!(IRValue::Signed8(1).expects_bool_value().unwrap_err().reason, "Expected a boolean!");
    assert_eq!(IRValue::Unsigned16(300).expects_numeric_value(16, false).unwrap(), 300);
    assert_eq!(IRValue::Signed16(-300).expects_numeric_value(16, true).unwrap(), -300);
    assert!(IRValue::Unsigned16(300).expects_numeric_value(8, false).is_err());
    assert!(IRValue::Signed16(-300).expects_numeric_value(16, false).is_err());
    assert_eq!(IRValue::Signed8(-128).expects_numeric_value(8, true).unwrap(), -128);
    assert_eq!(
        IRValue::Unsigned128(i128::MAX as u128).expects_numeric_value(128, false).unwrap(),
        i128::MAX
    );
    // A number that an `i128` cannot hold is refused, not wrapped.
    assert_eq!(
        IRValue::Unsigned128(u128::MAX).expects_numeric_value(128, false).unwrap_err().reason,
        "Cannot fit the given number value into the given bits!"
    );
    assert!(IRValue::Unsigned128(1 << 127).expects_numeric_value(128, true).is_err());
    assert_eq!(
        IRValue::Bool(true).expects_numeric_value(8, true).unwrap_err().reason,
        "Expected a numeric value!"
    );
    assert_eq!(
        IRValue::Struct(vec![], 1).expects_numeric_value(8, true).unwrap_err().reason,
        "Expected a numeric value!"
    );
}

#[test]
fn constants_need_a_type_of_their_kind() {
    let context = Context::create();
    let mut ctx = IRContext::new(&context).unwrap();
    let i8_t = typed(&ctx, SIGNED8_TYPE_HASH);
    let u8_t = typed(&ctx, UNSIGNED8_TYPE_HASH);
    let bool_t = typed(&ctx, BOOL_TYPE_HASH);
    let before = ctx.backend.trace().len();

    let minus = IRNewValue::from_signed(&mut ctx.backend, share(&i8_t), -7).unwrap();
    assert_eq!(
        ctx.backend.trace()[before],
        Instr::ConstSigned { ty: i8_t.get_inkwell_basetype(), value: -7, dest: minus.value }
    );
    assert_eq!(minus.obtain(), minus.value);
    assert_eq!(minus.obtain_as_int(), Some(minus.value));
    assert_eq!(minus.obtain_as_bool(), None);
    assert_eq!(minus.duplicate().value, minus.value);
    let plus = IRNewValue::from_unsigned(&mut ctx.backend, share(&u8_t), 200).unwrap();
    assert_eq!(
        *ctx.backend.trace().last().unwrap(),
        Instr::ConstUnsigned { ty: u8_t.get_inkwell_basetype(), value: 200, dest: plus.value }
    );
    let yes = IRNewValue::from_bool(&mut ctx.backend, true, share(&bool_t)).unwrap();
    assert_eq!(
        *ctx.backend.trace().last().unwrap(),
        Instr::ConstUnsigned { ty: bool_t.get_inkwell_basetype(), value: 1, dest: yes.value }
    );
    assert_eq!(yes.obtain_as_bool(), Some(yes.value));
    assert_eq!(yes.obtain_as_int(), None);

    let count = ctx.backend.trace().len();
    assert!(IRNewValue::from_signed(&mut ctx.backend, share(&u8_t), 1).is_err());
    assert!(IRNewValue::from_signed(&mut ctx.backend, share(&bool_t), 1).is_err());
    assert!(IRNewValue::from_unsigned(&mut ctx.backend, share(&i8_t), 1).is_err());
    assert!(IRNewValue::from_bool(&mut ctx.backend, true, share(&i8_t)).is_err());
    assert_eq!(ctx.backend.trace().len(), count);
}

#[test]
fn value_references() {
    let context = Context::create();
    let (mut ctx, _func) = in_a_function(&context);
    let i32_t = typed(&ctx, SIGNED32_TYPE_HASH);

    let text = IRValueRef::from_tempstr("hello".to_string());
    assert!(!text.requires_load());
    assert_eq!(text.obtain_tempstr().unwrap(), "hello");
    assert!(text.get_type().is_err());
    assert!(text.as_pointer().is_err());
    let count = ctx.backend.trace().len();
    assert_eq!(
        text.obtain(&mut ctx.backend).err().unwrap().reason,
        "Cannot perform this action on the given IR value type.\nPlease send a bug report at https://github.com/quickfall/quickfall"
    );
    assert!(text.obtain_pointer(&mut ctx.backend).is_err());
    assert_eq!(ctx.backend.trace().len(), count);

    let five = IRNewValue::from_signed(&mut ctx.backend, share(&i32_t), 5).unwrap();
    let value = IRValueRef::from_val(five.duplicate());
    assert!(!value.requires_load());
    assert!(value.as_pointer().is_err());
    assert!(value.obtain_tempstr().is_err());
    assert!(value.get_type().unwrap().is_same(&i32_t));
    let count = ctx.backend.trace().len();
    assert_eq!(value.obtain(&mut ctx.backend).unwrap().value, five.value);
    assert_eq!(ctx.backend.trace().len(), count);

    let slot = IRPointer::create(&mut ctx.backend, "x".to_string(), share(&i32_t), Some(value)).unwrap();
    let trace = ctx.backend.trace();
    assert_eq!(
        trace[trace.len() - 2..],
        [
            Instr::Alloca { ty: i32_t.get_inkwell_basetype(), dest: slot.ptr },
            Instr::Store { ptr: slot.ptr, value: five.value },
        ]
    );
    let pointer = IRValueRef::from_pointer(slot.duplicate());
    assert!(pointer.requires_load());
    assert_eq!(pointer.as_pointer().unwrap().ptr, slot.ptr);
    assert_eq!(pointer.obtain_pointer(&mut ctx.backend).unwrap(), slot.ptr);
    let loaded = pointer.obtain(&mut ctx.backend).unwrap();
    assert_eq!(
        *ctx.backend.trace().last().unwrap(),
        Instr::Load { ptr: slot.ptr, dest: loaded.value }
    );

    let spilled = IRValueRef::from_val(five.duplicate()).obtain_pointer(&mut ctx.backend).unwrap();
    let trace = ctx.backend.trace();
    assert_eq!(
        trace[trace.len() - 2..],
        [
            Instr::Alloca { ty: i32_t.get_inkwell_basetype(), dest: spilled },
            Instr::Store { ptr: spilled, value: five.value },
        ]
    );

    let llvm = ctx.backend.print();
    assert!(llvm.contains("%x = alloca i32"), "{}", llvm);
    assert!(llvm.contains("store i32 5, i32* %x"), "{}", llvm);
    assert!(llvm.contains("load i32, i32* %x"), "{}", llvm);
}

#[test]
fn pointers_load_their_own_type_only() {
    let context = Context::create();
    let (mut ctx, _func) = in_a_function(&context);
    let i32_t = typed(&ctx, SIGNED32_TYPE_HASH);
    let u8_t = typed(&ctx, UNSIGNED8_TYPE_HASH);
    let slot = IRPointer::create(&mut ctx.backend, "x".to_string(), share(&i32_t), None).unwrap();
    let moved = IRPointer::new(slot.ptr, share(&i32_t), "y".to_string());
    assert_eq!(moved.name, "y");
    let count = ctx.backend.trace().len();
    assert_eq!(
        slot.load(&mut ctx.backend, share(&u8_t)).err().unwrap().reason,
        "Provided IRType isn't the same!"
    );
    assert!(slot
        .load_from_inkwell_type(&mut ctx.backend, ctx.ptr_type, u8_t.get_inkwell_basetype())
        .is_err());
    assert_eq!(ctx.backend.trace().len(), count);
    assert!(slot.load(&mut ctx.backend, share(&i32_t)).is_ok());
    assert!(slot
        .load_from_inkwell_type(&mut ctx.backend, ctx.ptr_type, i32_t.get_inkwell_basetype())
        .is_ok());
    let nine = IRNewValue::from_signed(&mut ctx.backend, share(&i32_t), 9).unwrap();
    assert!(slot.store(&mut ctx.backend, nine.value));
    assert_eq!(
        *ctx.backend.trace().last().unwrap(),
        Instr::Store { ptr: slot.ptr, value: nine.value }
    );
    assert!(!slot.store(&mut ctx.backend, ValueHandle { index: 9999 }));
}

#[test]
fn static_variables() {
    let context = Context::create();
    let mut ctx = IRContext::new(&context).unwrap();
    let ptr_t = typed(&ctx, POINTER_TYPE_HASH);
    let i32_t = typed(&ctx, SIGNED32_TYPE_HASH);
    let text = IRStaticVariable::from_str(&mut ctx.backend, "héllo", "greeting".to_string(), share(&ptr_t)).unwrap();
    let address = match text.content {
        StaticContent::Text(v) => v,
        StaticContent::Value(_) => panic!("a string is no value"),
    };
    assert_eq!(*ctx.backend.trace().last().unwrap(), Instr::GlobalString { len: 6, dest: address });
    assert!(!text.is_compiletime_replaceable());
    assert_eq!(text.as_string_ref().unwrap(), address);
    assert_eq!(text.as_val().unwrap(), address);
    assert_eq!(text.name, "greeting");

    let seven = IRNewValue::from_signed(&mut ctx.backend, share(&i32_t), 7).unwrap();
    let number = IRStaticVariable::from_val("seven".to_string(), share(&i32_t), seven.duplicate()).unwrap();
    assert!(number.is_compiletime_replaceable());
    assert_eq!(number.as_val().unwrap(), seven.value);
    assert_eq!(
        number.as_string_ref().unwrap_err().reason,
        "Cannot obtain string reference if value is compile-time replacable.\nPlease send a bug report at https://github.com/quickfall/quickfall"
    );

    let global = IRValueRef::from_static(Rc::new(number));
    assert!(matches!(global.kind, IRValueRefKind::Global(_, _)));
    let count = ctx.backend.trace().len();
    assert_eq!(global.obtain(&mut ctx.backend).unwrap().value, seven.value);
    assert_eq!(global.obtain_pointer(&mut ctx.backend).unwrap(), seven.value);
    assert_eq!(ctx.backend.trace().len(), count);

    let llvm = ctx.backend.print();
    assert!(llvm.contains("@greeting = private unnamed_addr constant [7 x i8] c\"h\\C3\\A9llo\\00\""), "{}", llvm);
}

#[test]
fn one_namespace_for_functions_static_variables_and_types() {
    let context = Context::create();
    let mut ctx = IRContext::new(&context).unwrap();
    let i32_t = typed(&ctx, SIGNED32_TYPE_HASH);
    let name = utils_get_hash("thing");
    assert!(!ctx.is_key_taken(name));
    assert_eq!(
        ctx.get_funtion(name).err().unwrap().reason,
        "Cannot find function in the current context."
    );
    assert_eq!(
        ctx.get_variable(name).err().unwrap().reason,
        "Cannot find variable in the current context."
    );
    let f = IRFunction::create_shadow(&mut ctx.backend, "thing".to_string(), None, vec![]).unwrap();
    assert_eq!(ctx.add_function(name, f).unwrap(), true);
    assert!(ctx.is_key_taken(name));
    assert_eq!(ctx.get_funtion(name).unwrap().name, "thing");

    let seven = IRNewValue::from_signed(&mut ctx.backend, share(&i32_t), 7).unwrap();
    let var = IRStaticVariable::from_val("thing".to_string(), share(&i32_t), seven.duplicate()).unwrap();
    let refused = ctx.add_variable(name, var).unwrap_err();
    assert_eq!(
        refused.reason,
        "Cannot use this name for an element. An element named like this already exists!"
    );
    assert!(ctx.get_variable(name).is_err());

    let other = utils_get_hash("other");
    let var = IRStaticVariable::from_val("other".to_string(), share(&i32_t), seven.duplicate()).unwrap();
    assert_eq!(ctx.add_variable(other, var).unwrap(), true);
    assert_eq!(ctx.get_variable(other).unwrap().name, "other");
    let g = IRFunction::create_shadow(&mut ctx.backend, "other".to_string(), None, vec![]).unwrap();
    assert!(ctx.add_function(other, g).is_err());
    assert!(ctx.get_funtion(other).is_err());

    // The name of a type is taken too.
    let h = IRFunction::create_shadow(&mut ctx.backend, "i32".to_string(), None, vec![]).unwrap();
    assert!(ctx.add_function(SIGNED32_TYPE_HASH, h).is_err());
}

#[test]
fn variables_live_as_long_as_their_body() {
    let slot = |index: usize| {
        IRPointer::new(
            ValueHandle { index },
            Rc::new(IRType::Signed32(TypeHandle { index: 2 })),
            "v".to_string(),
        )
    };
    let mut scope = IRLocalContext::new();
    assert_eq!(scope.current_depth, 0);
    assert_eq!(scope.add_variable(1, slot(10)).unwrap(), true);
    scope.increment_body_depth();
    assert_eq!(scope.add_variable(2, slot(20)).unwrap(), true);
    scope.increment_body_depth();
    assert_eq!(scope.add_variable(3, slot(30)).unwrap(), true);
    assert_eq!(scope.current_depth, 2);
    assert_eq!(scope.get_variable(3).unwrap().ptr, ValueHandle { index: 30 });

    // A name that is bound anywhere in the function is refused.
    assert_eq!(
        scope.add_variable(1, slot(11)).unwrap_err().reason,
        "Variable is already registered in the current context."
    );
    assert_eq!(scope.get_variable(1).unwrap().ptr, ValueHandle { index: 10 });

    scope.end_nested_body_depth();
    assert_eq!(scope.current_depth, 1);
    assert!(scope.get_variable(3).is_err());
    assert!(scope.get_variable(2).is_ok());
    assert!(scope.get_variable(1).is_ok());
    scope.end_nested_body_depth();
    assert_eq!(
        scope.get_variable(2).err().unwrap().reason,
        "Cannot find variable in the current context."
    );
    assert!(scope.get_variable(1).is_ok());
    assert_eq!(scope.vars.entries().len(), 1);

    // A sibling body binds the name again.
    scope.increment_body_depth();
    assert_eq!(scope.add_variable(2, slot(21)).unwrap(), true);
    assert_eq!(scope.get_variable(2).unwrap().ptr, ValueHandle { index: 21 });
    scope.end_nested_body_depth();
    scope.end_nested_body_depth();
    assert_eq!(scope.current_depth, -1);
    assert!(scope.vars.entries().is_empty());
}

#[test]
fn functions_and_calls() {
    let context = Context::create();
    let mut ctx = IRContext::new(&context).unwrap();
    let i32_t = typed(&ctx, SIGNED32_TYPE_HASH);
    let bool_t = typed(&ctx, BOOL_TYPE_HASH);
    let double = IRFunction::create_shadow(
        &mut ctx.backend,
        "double".to_string(),
        Some(share(&i32_t)),
        vec![share(&i32_t)],
    )
    .unwrap();
    assert!(double.entry.is_none());
    assert!(!double.prepare_body_filling(&mut ctx.backend));
    let log = IRFunction::create_shadow(&mut ctx.backend, "log".to_string(), None, vec![share(&bool_t)]).unwrap();

    let before = ctx.backend.trace().len();
    let host = IRFunction::create(&mut ctx.backend, "host".to_string(), None, vec![share(&i32_t), share(&bool_t)]).unwrap();
    let entry = host.entry.unwrap();
    assert_eq!(
        ctx.backend.trace()[before..],
        [
            Instr::Parameter { ty: i32_t.get_inkwell_basetype() },
            Instr::Parameter { ty: bool_t.get_inkwell_basetype() },
            Instr::Function { params: 2, ret: None, dest: host.func },
            Instr::Block { func: host.func, dest: entry },
        ]
    );
    assert!(host.prepare_body_filling(&mut ctx.backend));
    assert_eq!(*ctx.backend.trace().last().unwrap(), Instr::Position { block: entry });

    let first = host.get_nth_arg_int(&mut ctx.backend, 0).unwrap();
    assert_eq!(
        *ctx.backend.trace().last().unwrap(),
        Instr::FunctionParam { func: host.func, index: 0, dest: first }
    );
    assert_eq!(
        host.get_nth_arg_int(&mut ctx.backend, 1).unwrap_err().reason,
        "Tried getting nth argument but given argument's type isn't numeric!"
    );
    assert!(host.get_nth_arg(&mut ctx.backend, 1).is_ok());
    assert_eq!(
        host.get_nth_arg(&mut ctx.backend, 2).unwrap_err().reason,
        "Couldn't get nth param using get_nth_param"
    );
    assert!(host.get_nth_arg_int(&mut ctx.backend, 2).is_err());
    assert!(host.get_nth_arg(&mut ctx.backend, u32::MAX).is_err());

    let four = IRNewValue::from_signed(&mut ctx.backend, share(&i32_t), 4).unwrap();
    let before = ctx.backend.trace().len();
    let result = double
        .call(&mut ctx.backend, vec![IRValueRef::from_val(four.duplicate())], true)
        .unwrap()
        .unwrap();
    let trace = &ctx.backend.trace()[before..];
    assert_eq!(trace[0], Instr::Argument { value: four.value });
    let returned = match trace[1] {
        Instr::Call { func, args: 1, dest: Some(v) } if func == double.func => v,
        other => panic!("no call: {:?}", other),
    };
    assert_eq!(
        trace[2..],
        [
            Instr::Alloca { ty: i32_t.get_inkwell_basetype(), dest: result.ptr },
            Instr::Store { ptr: result.ptr, value: returned },
        ]
    );
    assert!(result.t.is_same(&i32_t));
    // The slot of a result is named after the function.
    assert_eq!(result.name, format!("function_ret_{}", double.name));

    let unused = double.call(&mut ctx.backend, vec![IRValueRef::from_val(four.duplicate())], false).unwrap();
    assert!(unused.is_none());
    let yes = IRNewValue::from_bool(&mut ctx.backend, true, share(&bool_t)).unwrap();
    let nothing = log.call(&mut ctx.backend, vec![IRValueRef::from_val(yes)], true).unwrap();
    assert!(nothing.is_none());
    assert_eq!(
        *ctx.backend.trace().last().unwrap(),
        Instr::Call { func: log.func, args: 1, dest: None }
    );
    let text = IRValueRef::from_tempstr("t".to_string());
    assert!(double.call(&mut ctx.backend, vec![text], true).is_err());

    let llvm = ctx.backend.print();
    assert!(llvm.contains("declare i32 @double(i32)"), "{}", llvm);
    assert!(llvm.contains("declare void @log(i1)"), "{}", llvm);
    assert!(llvm.contains("define void @host(i32 %0, i1 %1)"), "{}", llvm);
    assert!(llvm.contains("call i32 @double(i32 4)"), "{}", llvm);
    assert!(llvm.contains("call void @log(i1 true)"), "{}", llvm);
}

#[test]
fn arithmetic_and_comparison_instructions() {
    let context = Context::create();
    let (mut ctx, host) = in_a_function(&context);
    let _ = host;
    let i32_t = typed(&ctx, SIGNED32_TYPE_HASH);
    let u32_t = typed(&ctx, UNSIGNED32_TYPE_HASH);
    let i64_t = typed(&ctx, SIGNED64_TYPE_HASH);
    let signed = IRPointer::create(&mut ctx.backend, "s".to_string(), share(&i32_t), None).unwrap();
    let unsigned = IRPointer::create(&mut ctx.backend, "u".to_string(), share(&u32_t), None).unwrap();
    let wide = IRPointer::create(&mut ctx.backend, "w".to_string(), share(&i64_t), None).unwrap();
    let a = signed.load(&mut ctx.backend, share(&i32_t)).unwrap().value;
    let b = signed.load(&mut ctx.backend, share(&i32_t)).unwrap().value;

    for (operation, op, text) in [
        (MathOperator::ADD, BinaryOp::Add, "add i32"),
        (MathOperator::SUBSTRACT, BinaryOp::Sub, "sub i32"),
        (MathOperator::MULTIPLY, BinaryOp::Mul, "mul i32"),
        (MathOperator::DIVIDE, BinaryOp::SignedDiv, "sdiv i32"),
    ] {
        let dest = make_math_operation(&mut ctx.backend, a, b, "_math".to_string(), operation).unwrap();
        assert_eq!(*ctx.backend.trace().last().unwrap(), Instr::Binary { op, lhs: a, rhs: b, dest });
        assert!(ctx.backend.print().contains(text), "{}", text);
    }
    assert!(make_math_operation(&mut ctx.backend, a, signed.ptr, "_math".to_string(), MathOperator::ADD).is_err());

    assert_eq!(select_predicate(ComparingOperator::Equal, true), Predicate::Equal);
    assert_eq!(select_predicate(ComparingOperator::Equal, false), Predicate::Equal);
    assert_eq!(select_predicate(ComparingOperator::NotEqual, true), Predicate::NotEqual);
    assert_eq!(select_predicate(ComparingOperator::NotEqual, false), Predicate::NotEqual);
    assert_eq!(select_predicate(ComparingOperator::Higher, true), Predicate::SignedGreater);
    assert_eq!(select_predicate(ComparingOperator::Higher, false), Predicate::UnsignedGreater);
    assert_eq!(select_predicate(ComparingOperator::HigherEqual, true), Predicate::SignedGreaterEqual);
    assert_eq!(select_predicate(ComparingOperator::HigherEqual, false), Predicate::UnsignedGreaterEqual);
    assert_eq!(select_predicate(ComparingOperator::Lower, true), Predicate::SignedLess);
    assert_eq!(select_predicate(ComparingOperator::Lower, false), Predicate::UnsignedLess);
    assert_eq!(select_predicate(ComparingOperator::LowerEqual, true), Predicate::SignedLessEqual);
    assert_eq!(select_predicate(ComparingOperator::LowerEqual, false), Predicate::UnsignedLessEqual);

    let reference = |p: &IRPointer| IRValueRef::from_pointer(p.duplicate());
    for (comp, signed_text, unsigned_text) in [
        (ComparingOperator::Equal, "icmp eq", "icmp eq"),
        (ComparingOperator::NotEqual, "icmp ne", "icmp ne"),
        (ComparingOperator::Higher, "icmp sgt", "icmp ugt"),
        (ComparingOperator::HigherEqual, "icmp sge", "icmp uge"),
        (ComparingOperator::Lower, "icmp slt", "icmp ult"),
        (ComparingOperator::LowerEqual, "icmp sle", "icmp ule"),
    ] {
        let r = make_bool_cmp_int(&mut ctx, reference(&signed), reference(&signed), comp).unwrap();
        assert!(matches!(*r.t, IRType::Bool(_)));
        match *ctx.backend.trace().last().unwrap() {
            Instr::Compare { predicate, dest, .. } => {
                assert_eq!(predicate, select_predicate(comp, true));
                assert_eq!(dest, r.value);
            }
            other => panic!("no comparison: {:?}", other),
        }
        assert!(ctx.backend.print().contains(signed_text), "{}", signed_text);
        let r = make_bool_cmp_int(&mut ctx, reference(&unsigned), reference(&unsigned), comp).unwrap();
        match *ctx.backend.trace().last().unwrap() {
            Instr::Compare { predicate, dest, .. } => {
                assert_eq!(predicate, select_predicate(comp, false));
                assert_eq!(dest, r.value);
            }
            other => panic!("no comparison: {:?}", other),
        }
        assert!(ctx.backend.print().contains(unsigned_text), "{}", unsigned_text);
    }

    // The right operand is brought to the type of the left one.
    let before = ctx.backend.trace().len();
    make_bool_cmp_int(&mut ctx, reference(&signed), reference(&wide), ComparingOperator::Lower).unwrap();
    let trace = &ctx.backend.trace()[before..];
    assert!(matches!(trace[0], Instr::Load { .. }));
    assert!(matches!(trace[1], Instr::Load { .. }));
    assert!(
        matches!(trace[2], Instr::IntCast { ty, signed: true, .. } if ty == i32_t.get_inkwell_basetype())
    );
    assert!(matches!(trace[3], Instr::Compare { predicate: Predicate::SignedLess, .. }));
    assert!(ctx.backend.print().contains("trunc i64"));
    make_bool_cmp_int(&mut ctx, reference(&wide), reference(&signed), ComparingOperator::Lower).unwrap();
    assert!(ctx.backend.print().contains("sext i32"));
    make_bool_cmp_int(&mut ctx, reference(&wide), reference(&unsigned), ComparingOperator::Lower).unwrap();
    assert!(ctx.backend.print().contains("zext i32"));

    let text = IRValueRef::from_tempstr("t".to_string());
    assert!(make_bool_cmp_int(&mut ctx, text, reference(&signed), ComparingOperator::Equal).is_err());
}

#[test]
fn negation_is_exclusive_or_with_true() {
    let context = Context::create();
    let (mut ctx, _host) = in_a_function(&context);
    let bool_t = typed(&ctx, BOOL_TYPE_HASH);
    let i32_t = typed(&ctx, SIGNED32_TYPE_HASH);
    let flag = IRPointer::create(&mut ctx.backend, "flag".to_string(), share(&bool_t), None).unwrap();
    let before = ctx.backend.trace().len();
    let negated = make_bool_xor(&mut ctx, IRValueRef::from_pointer(flag.duplicate())).unwrap();
    assert!(matches!(*negated.t, IRType::Bool(_)));
    let trace = &ctx.backend.trace()[before..];
    let loaded = match trace[0] {
        Instr::Load { ptr, dest } if ptr == flag.ptr => dest,
        other => panic!("no load: {:?}", other),
    };
    let one = match trace[1] {
        Instr::ConstUnsigned { ty, value: 1, dest } if ty == bool_t.get_inkwell_basetype() => dest,
        other => panic!("no constant: {:?}", other),
    };
    assert_eq!(
        trace[2],
        Instr::Binary { op: BinaryOp::Xor, lhs: loaded, rhs: one, dest: negated.value }
    );
    assert_eq!(trace.len(), 3);
    assert!(ctx.backend.print().contains("xor i1"));

    let number = IRPointer::create(&mut ctx.backend, "n".to_string(), share(&i32_t), None).unwrap();
    assert_eq!(
        make_bool_xor(&mut ctx, IRValueRef::from_pointer(number)).err().unwrap().reason,
        "Cannot use this value as a condition boolean."
    );
    assert!(make_bool_xor(&mut ctx, IRValueRef::from_tempstr("t".to_string())).is_err());
}

#[test]
fn backend_refuses_handles_it_did_not_issue() {
    let context = Context::create();
    let mut backend = Backend::new(&context, "m");
    assert!(backend.trace().is_empty());
    assert_eq!(backend.blocks_issued(), 0);
    let stray_type = TypeHandle { index: 3 };
    let stray_value = ValueHandle { index: 3 };
    let stray_block = BlockHandle { index: 3 };
    let stray_func = FunctionHandle { index: 3 };
    assert_eq!(backend.build_alloca(stray_type, "x"), Err(BackendError::UnknownHandle));
    assert_eq!(backend.build_load(stray_value, "x"), Err(BackendError::UnknownHandle));
    assert_eq!(backend.build_store(stray_value, stray_value), Err(BackendError::UnknownHandle));
    assert_eq!(backend.build_field_pointer(stray_value, 0, "x"), Err(BackendError::UnknownHandle));
    assert_eq!(backend.build_call(stray_func, &vec![], "x"), Err(BackendError::UnknownHandle));
    assert_eq!(
        backend.build_binary(BinaryOp::Add, stray_value, stray_value, "x"),
        Err(BackendError::UnknownHandle)
    );
    assert_eq!(
        backend.build_compare(Predicate::Equal, stray_value, stray_value, "x"),
        Err(BackendError::UnknownHandle)
    );
    assert_eq!(backend.build_int_cast(stray_value, stray_type, true, "x"), Err(BackendError::UnknownHandle));
    assert_eq!(backend.build_branch(stray_block), Err(BackendError::UnknownHandle));
    assert_eq!(
        backend.build_conditional_branch(stray_value, stray_block, stray_block),
        Err(BackendError::UnknownHandle)
    );
    assert_eq!(backend.build_return(Some(stray_value)), Err(BackendError::UnknownHandle));
    assert_eq!(backend.position_at_end(stray_block), Err(BackendError::UnknownHandle));
    assert_eq!(backend.append_block(stray_func, "x"), Err(BackendError::UnknownHandle));
    assert_eq!(backend.function_param(stray_func, 0), Err(BackendError::UnknownHandle));
    assert_eq!(backend.const_signed(stray_type, 1), Err(BackendError::UnknownHandle));
    assert_eq!(backend.const_unsigned(stray_type, 1), Err(BackendError::UnknownHandle));
    assert_eq!(backend.struct_type(&vec![stray_type], true), Err(BackendError::UnknownHandle));
    assert_eq!(backend.declare_function("f", Some(stray_type), &vec![]), Err(BackendError::UnknownHandle));
    assert_eq!(backend.declare_function("f", None, &vec![stray_type]), Err(BackendError::UnknownHandle));
    assert!(backend.trace().is_empty());

    // Without a block to build in, the code generator refuses instructions.
    let int = backend.int_type(32).unwrap();
    assert_eq!(backend.build_alloca(int, "x"), Err(BackendError::Refused));
    assert_eq!(backend.build_return(None), Err(BackendError::Refused));
    assert_eq!(backend.int_type(0), Err(BackendError::Refused));
    let pointer = backend.pointer_type();
    assert_eq!(backend.const_signed(pointer, 1), Err(BackendError::NotAnInteger));
    assert_eq!(backend.trace().len(), 2);
}

#[test]
fn backend_builds_blocks_branches_and_returns() {
    let context = Context::create();
    let mut backend = Backend::new(&context, "m");
    let int = backend.int_type(32).unwrap();
    let flag_type = backend.int_type(1).unwrap();
    let func = backend.declare_function("pick", Some(int), &vec![flag_type]).unwrap();
    let entry = backend.append_block(func, "entry").unwrap();
    let yes = backend.append_block(func, "yes").unwrap();
    let no = backend.append_block(func, "no").unwrap();
    assert_eq!(backend.blocks_issued(), 3);
    backend.position_at_end(entry).unwrap();
    let flag = backend.function_param(func, 0).unwrap();
    backend.build_conditional_branch(flag, yes, no).unwrap();
    backend.position_at_end(yes).unwrap();
    let one = backend.const_signed(int, 1).unwrap();
    backend.build_return(Some(one)).unwrap();
    backend.position_at_end(no).unwrap();
    backend.build_branch(yes).unwrap();
    assert_eq!(
        backend.trace()[backend.trace().len() - 8..],
        [
            Instr::Position { block: entry },
            Instr::FunctionParam { func, index: 0, dest: flag },
            Instr::ConditionalBranch { cond: flag, then_block: yes, else_block: no },
            Instr::Position { block: yes },
            Instr::ConstSigned { ty: int, value: 1, dest: one },
            Instr::Return { value: Some(one) },
            Instr::Position { block: no },
            Instr::Branch { target: yes },
        ]
    );
    let llvm = backend.print();
    assert!(llvm.contains("define i32 @pick(i1 %0)"), "{}", llvm);
    assert!(llvm.contains("br i1 %0, label %yes, label %no"), "{}", llvm);
    assert!(llvm.contains("ret i32 1"), "{}", llvm);
    assert!(llvm.contains("br label %yes"), "{}", llvm);
}

#[test]
fn small_helpers() {
    let mut slot: LateInit<u8> = LateInit::new();
    assert_eq!(slot.get(), None);
    slot.fill(4);
    assert_eq!(slot.get(), Some(&4));
    slot.fill(5);
    assert_eq!(slot.get(), Some(&5));
    assert_eq!(SelfHash { hash: 3 }, SelfHash { hash: 3 });
    let _: HashedMap<u8> = HashedMap::new(0);
}

#[test]
fn operations_fail_before_they_build_where_the_library_decides() {
    let context = Context::create();
    let (mut ctx, host) = in_a_function(&context);
    let i32_t = typed(&ctx, SIGNED32_TYPE_HASH);
    let ptr_t = typed(&ctx, POINTER_TYPE_HASH);
    let text = || IRValueRef::from_tempstr("t".to_string());
    let five = IRNewValue::from_signed(&mut ctx.backend, share(&i32_t), 5).unwrap();
    let before = ctx.backend.trace().len();
    let temp = "Cannot perform this action on the given IR value type.\nPlease send a bug report at https://github.com/quickfall/quickfall";

    // A string literal that is still text cannot be materialized.
    assert_eq!(make_bool_xor(&mut ctx, text()).err().unwrap().reason, temp);
    assert_eq!(
        make_bool_cmp_int(&mut ctx, text(), IRValueRef::from_val(five.duplicate()), ComparingOperator::Equal)
            .err()
            .unwrap()
            .reason,
        temp
    );
    assert_eq!(
        make_bool_cmp_int(&mut ctx, IRValueRef::from_val(five.duplicate()), text(), ComparingOperator::Equal)
            .err()
            .unwrap()
            .reason,
        temp
    );
    assert_eq!(host.call(&mut ctx.backend, vec![text()], false).err().unwrap().reason, temp);
    assert!(host
        .call(&mut ctx.backend, vec![IRValueRef::from_val(five.duplicate()), text()], false)
        .is_err());

    // A value that is no boolean cannot be negated, and what is no integer
    // cannot be compared.
    assert_eq!(
        make_bool_xor(&mut ctx, IRValueRef::from_val(five.duplicate())).err().unwrap().reason,
        "Cannot use this value as a condition boolean."
    );
    let address = IRNewValue::new(five.value, share(&ptr_t));
    assert_eq!(
        make_bool_cmp_int(
            &mut ctx,
            IRValueRef::from_val(five.duplicate()),
            IRValueRef::from_val(address),
            ComparingOperator::Equal
        )
        .err()
        .unwrap()
        .reason,
        "Cannot use this vaue as a {}"
    );

    // A function whose handle the backend did not issue cannot be called.
    let stranger = IRFunction::new_shadow(
        "stranger".to_string(),
        FunctionHandle { index: 1000 },
        None,
        vec![],
    );
    assert_eq!(
        stranger
            .call(&mut ctx.backend, vec![IRValueRef::from_val(five.duplicate())], false)
            .err()
            .unwrap()
            .reason,
        "The instruction builder was handed a handle that it did not issue."
    );
    assert_eq!(ctx.backend.trace().len(), before);
}

#[test]
fn integer_types_come_in_every_width_that_the_code_generator_has() {
    let context = Context::create();
    let mut backend = Backend::new(&context, "widths");
    assert_eq!(backend.int_type(0), Err(BackendError::Refused));
    assert_eq!(backend.int_type(8388609), Err(BackendError::Refused));
    assert!(backend.trace().is_empty());
    let one = backend.int_type(1).unwrap();
    let odd = backend.int_type(7).unwrap();
    let widest = backend.int_type(8388608).unwrap();
    assert_eq!((one.index, odd.index, widest.index), (0, 1, 2));
    assert_eq!(
        backend.trace().to_vec(),
        vec![
            Instr::IntType { bits: 1, dest: one },
            Instr::IntType { bits: 7, dest: odd },
            Instr::IntType { bits: 8388608, dest: widest },
        ]
    );
}

#[test]
fn the_library_names_its_own_refusals() {
    let context = Context::create();
    let (mut ctx, _host) = in_a_function(&context);
    let i32_t = typed(&ctx, SIGNED32_TYPE_HASH);
    let u8_t = typed(&ctx, UNSIGNED8_TYPE_HASH);
    let bool_t = typed(&ctx, BOOL_TYPE_HASH);
    let slot = IRPointer::create(&mut ctx.backend, "x".to_string(), share(&i32_t), None).unwrap();
    let count = ctx.backend.trace().len();

    // A stack location that is read as another type than it holds.
    let apart = IRValueRef { kind: IRValueRefKind::Ptr(share(&u8_t), slot.duplicate()) };
    assert_eq!(
        apart.obtain(&mut ctx.backend).err().unwrap().reason,
        "Provided IRType isn't the same!"
    );
    let apart = IRValueRef { kind: IRValueRefKind::Ptr(share(&u8_t), slot.duplicate()) };
    assert_eq!(
        make_bool_xor(&mut ctx, apart).err().unwrap().reason,
        "Provided IRType isn't the same!"
    );
    // A boolean cannot be compared with what is no integer, whichever side.
    let flag = IRNewValue::from_bool(&mut ctx.backend, true, share(&bool_t)).unwrap();
    let count = count + 1;
    let address = IRNewValue::new(flag.value, typed(&ctx, POINTER_TYPE_HASH));
    assert_eq!(
        make_bool_cmp_int(
            &mut ctx,
            IRValueRef::from_val(address),
            IRValueRef::from_val(flag.duplicate()),
            ComparingOperator::Equal
        )
        .err()
        .unwrap()
        .reason,
        "Cannot use this vaue as a {}"
    );
    assert_eq!(ctx.backend.trace().len(), count);
}

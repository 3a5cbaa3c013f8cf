//! Lowering of function declarations, of bodies and of their members.

use vstd::prelude::*;
use std::rc::Rc;
use crate::commons::err::{PositionlessError, PositionlessResult, fails_with};
use crate::commons::utils::map::{spec_get, spec_put};
use crate::errors::errors::{BACKEND_HANDLE, INKWELL_FUNC_FAILED, IR_BODY_MEMBER, IR_FIND_PRIMITIVE_TYPE, IR_FIND_TYPE, IR_FIND_VARIABLE, IR_NODE_KIND, IR_VALUE_NODE, MATH_OP_NO_ASSIGN};
use crate::ir::backend::{BlockHandle, FunctionHandle, Instr};
use crate::ir::conv::control::{parse_for_statement_ir, parse_if_statement_ir};
use crate::ir::conv::judged::{spec_call_refusal, spec_fresh_scope, spec_function_refusal, spec_declaration_outcome, spec_member_outcome, spec_members_outcome, spec_passed, spec_refusal_of, spec_return_refusal, spec_static_scope, spec_value_refusal};
use crate::ir::conv::lowered::{Env, spec_callee, spec_env};
use crate::ir::conv::members::{Scope, spec_body_lowers, spec_call_lowers, spec_declares, spec_evaluates, spec_grown, spec_holds, spec_member_lowers, spec_members_lower, spec_returns, spec_scope, spec_statement_value};
use crate::ir::conv::val::{parse_ir_value, parse_ir_values, resolve_callee, spec_is_value_node};
use crate::ir::ctx::{spec_kept, IRContext, IRLocalContext, LocalIRVariable, lemma_extends_trans, lemma_pruned_extension, spec_pruned};
use crate::ir::irstruct::funcs::IRFunction;
use crate::ir::irstruct::ptr::IRPointer;
use crate::ir::irstruct::staticvars::IRStaticVariable;
use crate::ir::refs::{IRValueRef, IRValueRefKind};
use crate::ir::rules::{Recorded, spec_calls, spec_coerces, spec_function_declared, spec_obtains, spec_reached, spec_recorded, spec_step, spec_takes_slot};
use crate::ir::types::POINTER_TYPE_HASH;
use crate::ir::types::typing::{IRType, spec_base_type, spec_same_type};
use crate::ir::utils::{backend_failure, share};
use crate::ir::utils::backend_failed;
use crate::ir::values::{IRNewValue, is_integral, spec_is_integral};
use crate::ir::verdict::{spec_left_type, spec_settled, spec_sound, spec_static_vars, spec_value_verdict};
use crate::parser::ast::tree::{ASTTreeNode, FunctionDeclarationArgument};
use crate::utils::hash::WithHash;

verus! {

/// Whether two functions differ in nothing but their local context.
pub open spec fn spec_same_signature(a: IRFunction, b: IRFunction) -> bool {
    a.func == b.func && a.ret_type == b.ret_type && a.args == b.args && a.name == b.name
        && a.entry == b.entry
}

/// Whether a node may stand in a function body.
pub open spec fn spec_is_body_member(node: ASTTreeNode) -> bool {
    node is VarDeclaration || node is StructLRFunction || node is StructLRVariable
        || node is FunctionCall || node is IfStatement || node is ForBlock || node is MathResult
        || node is ReturnStatement
}

/// Resolves the types of the parameters of a declaration.
fn resolve_arguments<'ctx>(ctx: &IRContext<'ctx>, args: &Vec<FunctionDeclarationArgument>) -> (r:
    PositionlessResult<Vec<Rc<IRType>>>)
    ensures
        match r {
            Ok(v) => v@.len() == args@.len() && (forall|i: int|
                0 <= i < v@.len() ==> Some(#[trigger] v@[i]) == spec_get(
                    ctx.type_storage.map@,
                    args@[i].argument_type,
                )) && (forall|i: int|
                0 <= i < args@.len() ==> ctx.type_storage.map@.contains_key(
                    #[trigger] args@[i].argument_type,
                )),
            Err(_) => fails_with(r, IR_FIND_TYPE) && exists|i: int|
                0 <= i < args@.len() && !ctx.type_storage.map@.contains_key(
                    #[trigger] args@[i].argument_type,
                ),
        },
{
    let mut arguments: Vec<Rc<IRType>> = Vec::new();
    let mut i: usize = 0;
    while i < args.len()
        invariant
            i <= args@.len(),
            arguments@.len() == i,
            forall|k: int|
                0 <= k < i ==> Some(#[trigger] arguments@[k]) == spec_get(
                    ctx.type_storage.map@,
                    args@[k].argument_type,
                ),
            forall|k: int|
                0 <= k < i ==> ctx.type_storage.map@.contains_key(
                    #[trigger] args@[k].argument_type,
                ),
        decreases args@.len() - i,
    {
        let t = match ctx.type_storage.get(args[i].argument_type) {
            Some(v) => v,
            None => {
                return Err(PositionlessError::with_message(IR_FIND_TYPE));
            },
        };
        arguments.push(t);
        i += 1;
    }
    Ok(arguments)
}

/// What the head of a function declaration must resolve to before anything is
/// built: the return type, where one is named, and every parameter type.
pub open spec fn spec_signature_resolves(
    types: Map<u64, Rc<IRType>>,
    args: Seq<FunctionDeclarationArgument>,
    ret: Option<u64>,
) -> bool {
    &&& ret matches Some(h) ==> types.contains_key(h)
    &&& forall|i: int| 0 <= i < args.len() ==> types.contains_key(#[trigger] args[i].argument_type)
}

/// Whether the backend has issued the types that the head of a function
/// declaration resolves to.
pub open spec fn spec_signature_issued(
    types: Map<u64, Rc<IRType>>,
    issued: nat,
    args: Seq<FunctionDeclarationArgument>,
    ret: Option<u64>,
) -> bool {
    &&& forall|i: int|
        0 <= i < args.len() ==> spec_base_type(*types[(#[trigger] args[i]).argument_type]).index
            < issued
    &&& ret matches Some(h) ==> spec_base_type(*types[h]).index < issued
}

/// Whether a function can be declared under `hash` with this head: its types
/// are registered and were issued by the backend, and the name is free.
pub open spec fn spec_declarable(
    ctx: IRContext,
    hash: u64,
    args: Seq<FunctionDeclarationArgument>,
    ret: Option<u64>,
) -> bool {
    &&& spec_signature_resolves(ctx.type_storage.map@, args, ret)
    &&& spec_signature_issued(ctx.type_storage.map@, ctx.backend.issued().types, args, ret)
    &&& !ctx.spec_is_key_taken(hash)
}

/// Whether the signature of a function is what a declaration names: each
/// parameter has the type that is registered under the hash of its type's
/// name, and so has the result; a declaration without a return type makes a
/// function that returns nothing.
pub open spec fn spec_signature_of(
    types: Map<u64, Rc<IRType>>,
    args: Seq<FunctionDeclarationArgument>,
    ret: Option<u64>,
    f: IRFunction,
) -> bool {
    &&& f.args@.len() == args.len()
    &&& forall|i: int|
        0 <= i < args.len() ==> Some(#[trigger] f.args@[i]) == spec_get(
            types,
            args[i].argument_type,
        )
    &&& match ret {
        Some(h) => f.ret_type is Some && f.ret_type == spec_get(types, h),
        None => f.ret_type is None,
    }
}

/// Lowers the declaration of a function that is defined elsewhere: its types
/// are resolved, it is declared in the module without a body and registered
/// under the hash of its name.
pub fn parse_ir_shadow_function_decl<'ctx>(ctx: &mut IRContext<'ctx>, node: &ASTTreeNode) -> (r:
    PositionlessResult<Rc<IRFunction>>)
    ensures
        final(ctx).backend.advanced(&old(ctx).backend),
        final(ctx).ptr_type == old(ctx).ptr_type,
        final(ctx).type_storage.map@ == old(ctx).type_storage.map@,
        final(ctx).static_vars@ == old(ctx).static_vars@,
        r is Err ==> final(ctx).functions@ == old(ctx).functions@,
        match *node {
            ASTTreeNode::ShadowFunctionDeclaration { func_name, args, returnType } => {
                &&& !spec_signature_resolves(old(ctx).type_storage.map@, args@, returnType)
                    ==> fails_with(r, IR_FIND_TYPE) && final(ctx).backend.idle(&old(ctx).backend)
                &&& old(ctx).spec_is_key_taken(func_name.hash) ==> r is Err
                &&& spec_settled(
                    r,
                    spec_function_refusal(
                        spec_env(*old(ctx)),
                        old(ctx).spec_is_key_taken(func_name.hash),
                        spec_signature_resolves(old(ctx).type_storage.map@, args@, returnType),
                        Seq::empty(),
                    ),
                )
                &&& spec_declarable(*old(ctx), func_name.hash, args@, returnType) ==> r is Ok
                &&& r matches Ok(f) ==> {
                    &&& final(ctx).functions@ == spec_put(old(ctx).functions@, func_name.hash, f)
                    &&& f.entry is None
                    &&& f.name@ == func_name.val@
                    &&& spec_signature_of(old(ctx).type_storage.map@, args@, returnType, *f)
                    &&& spec_function_declared(
                        spec_recorded(old(ctx).backend),
                        spec_recorded(final(ctx).backend),
                        *f,
                    )
                }
            },
            _ => fails_with(r, IR_NODE_KIND) && final(ctx).backend.idle(&old(ctx).backend),
        },
{
    match node {
        ASTTreeNode::ShadowFunctionDeclaration { func_name, args, returnType } => {
            let return_type = match returnType {
                Some(h) => match ctx.type_storage.get(*h) {
                    Some(t) => Some(t),
                    None => {
                        return Err(PositionlessError::with_message(IR_FIND_TYPE));
                    },
                },
                None => None,
            };
            let arguments = resolve_arguments(ctx, args)?;
            let made = IRFunction::create_shadow(
                &mut ctx.backend,
                func_name.val.clone(),
                return_type,
                arguments,
            );
            let func = made?;
            ctx.add_function(func_name.hash, func)?;
            ctx.get_funtion(func_name.hash)
        },
        _ => Err(PositionlessError::with_message(IR_NODE_KIND)),
    }
}

/// Whether the last member of a body is a return statement.
pub open spec fn spec_ends_in_return(body: Seq<Box<ASTTreeNode>>) -> bool {
    body.len() > 0 && *body.last() is ReturnStatement
}

fn ends_in_return(body: &Vec<Box<ASTTreeNode>>) -> (r: bool)
    ensures
        r == spec_ends_in_return(body@),
{
    if body.len() == 0 {
        return false;
    }
    match &*body[body.len() - 1] {
        ASTTreeNode::ReturnStatement { .. } => true,
        _ => false,
    }
}

/// The entry block of a function was appended, and the cursor moved into it.
pub open spec fn spec_entered(a: Recorded, b: Recorded, func: FunctionHandle, entry: BlockHandle) -> bool {
    exists|s: Recorded| #[trigger]
        spec_step(a, s, Instr::Block { func, dest: entry }) && spec_step(
            s,
            b,
            Instr::Position { block: entry },
        )
}

/// A function declaration: the function is declared with the signature that
/// the declaration names and entered; its body is lowered as a body that ends
/// there, from an empty scope; and a function without a return type whose body
/// does not end in a return statement gets a return of nothing at its end.
pub open spec fn spec_function_lowers(
    env: Env,
    a: Recorded,
    b: Recorded,
    args: Seq<FunctionDeclarationArgument>,
    ret: Option<u64>,
    body: Seq<Box<ASTTreeNode>>,
    f: IRFunction,
) -> bool {
    &&& spec_signature_of(env.types, args, ret, f)
    &&& f.entry is Some
    &&& exists|s0: Recorded, s1: Recorded, s2: Recorded|
        #![trigger spec_function_declared(a, s0, f), spec_entered(s0, s1, f.func, f.entry->Some_0), spec_reached(s1, s2)]
        spec_function_declared(a, s0, f) && spec_entered(s0, s1, f.func, f.entry->Some_0)
            && spec_reached(s1, s2) && spec_body_lowers(
            env,
            f.func,
            s1,
            s2,
            Scope { vars: Map::empty(), depth: 0 },
            spec_scope(f.lctx),
            body,
            true,
        ) && (if ret is None && !spec_ends_in_return(body) {
            spec_step(s2, b, Instr::Return { value: None })
        } else {
            b == s2
        })
}

/// Lowers a function declaration: its types are resolved, the function is
/// created with its entry block, the body is lowered into it, and the function
/// is registered under the hash of its name. A function without a return type
/// whose body does not end in a return statement gets a return of nothing at
/// its end.
pub fn parse_ir_function_decl<'ctx>(ctx: &mut IRContext<'ctx>, node: &ASTTreeNode) -> (r:
    PositionlessResult<Rc<IRFunction>>)
    ensures
        final(ctx).backend.advanced(&old(ctx).backend),
        final(ctx).ptr_type == old(ctx).ptr_type,
        final(ctx).type_storage.map@ == old(ctx).type_storage.map@,
        final(ctx).static_vars@ == old(ctx).static_vars@,
        r is Err ==> final(ctx).functions@ == old(ctx).functions@,
        match *node {
            ASTTreeNode::FunctionDeclaration { func_name, args, body, returnType } => {
                &&& !spec_signature_resolves(old(ctx).type_storage.map@, args@, returnType)
                    ==> fails_with(r, IR_FIND_TYPE) && final(ctx).backend.idle(&old(ctx).backend)
                &&& old(ctx).spec_is_key_taken(func_name.hash) ==> r is Err
                &&& spec_settled(
                    r,
                    spec_function_refusal(
                        spec_env(*old(ctx)),
                        old(ctx).spec_is_key_taken(func_name.hash),
                        spec_signature_resolves(old(ctx).type_storage.map@, args@, returnType),
                        body@,
                    ),
                )
                &&& spec_declarable(*old(ctx), func_name.hash, args@, returnType)
                    && returnType is Some && body@.len() == 0 ==> r is Ok
                &&& r matches Ok(f) ==> {
                    &&& final(ctx).functions@ == spec_put(old(ctx).functions@, func_name.hash, f)
                    &&& f.name@ == func_name.val@
                    &&& f.lctx.vars@ == Map::<u64, LocalIRVariable>::empty()
                    &&& spec_function_lowers(
                        spec_env(*old(ctx)),
                        spec_recorded(old(ctx).backend),
                        spec_recorded(final(ctx).backend),
                        args@,
                        returnType,
                        body@,
                        *f,
                    )
                }
            },
            _ => fails_with(r, IR_NODE_KIND) && final(ctx).backend.idle(&old(ctx).backend),
        },
{
    match node {
        ASTTreeNode::FunctionDeclaration { func_name, args, body, returnType } => {
            let return_type = match returnType {
                Some(h) => match ctx.type_storage.get(*h) {
                    Some(t) => Some(t),
                    None => {
                        return Err(PositionlessError::with_message(IR_FIND_TYPE));
                    },
                },
                None => None,
            };
            let arguments = resolve_arguments(ctx, args)?;
            let ghost start = *ctx;
            let made = IRFunction::create(
                &mut ctx.backend,
                func_name.val.clone(),
                return_type,
                arguments,
            );
            let mut func = made?;
            let ghost created = func;
            let ghost with_entry = spec_recorded(ctx.backend);
            assert(ctx.only_built(&start));
            if !func.prepare_body_filling(&mut ctx.backend) {
                return Err(PositionlessError::with_message(BACKEND_HANDLE));
            }
            let ghost s1 = spec_recorded(ctx.backend);
            let ghost entered = *ctx;
            assert(ctx.only_built(&start));
            proof {
                assert(spec_static_scope(func.lctx).vars =~= spec_fresh_scope().vars);
                assert(spec_static_scope(func.lctx) == spec_fresh_scope());
                assert(spec_env(*ctx) == spec_env(start));
            }
            let lowered = parse_ir_body(ctx, &mut func, body, true);
            assert(ctx.only_built(&start));
            lowered?;
            let ghost s2 = spec_recorded(ctx.backend);
            if func.ret_type.is_none() && !ends_in_return(body) {
                match ctx.backend.build_return(None) {
                    Ok(_) => {},
                    Err(e) => {
                        return Err(backend_failure(e));
                    },
                }
            }
            proof {
                assert(func.lctx.vars@ =~= Map::<u64, LocalIRVariable>::empty());
                assert(ctx.only_built(&start));
                let s0 = choose|s: Recorded| #[trigger]
                    spec_function_declared(spec_recorded(start.backend), s, created) && spec_step(
                        s,
                        with_entry,
                        Instr::Block { func: created.func, dest: created.entry->Some_0 },
                    );
                assert(spec_function_declared(spec_recorded(start.backend), s0, func));
                assert(spec_entered(s0, s1, func.func, func.entry->Some_0));
                assert(spec_reached(s1, s2));
                assert(spec_scope(created.lctx) == (Scope { vars: Map::empty(), depth: 0 }));
                assert(spec_env(entered) == spec_env(start));
                assert(spec_function_lowers(
                    spec_env(start),
                    spec_recorded(start.backend),
                    spec_recorded(ctx.backend),
                    args@,
                    *returnType,
                    body@,
                    func,
                ));
            }
            ctx.add_function(func_name.hash, func)?;
            ctx.get_funtion(func_name.hash)
        },
        _ => Err(PositionlessError::with_message(IR_NODE_KIND)),
    }
}

/// Decides how a declaration holds the initial value that was lowered for it.
fn hold_initial<'ctx>(
    ctx: &mut IRContext<'ctx>,
    lowered: IRValueRef,
    name: &String,
    t: &Rc<IRType>,
) -> (r: PositionlessResult<IRValueRef>)
    ensures
        final(ctx).only_built(old(ctx)),
        r matches Ok(initial) ==> spec_holds(
            spec_recorded(old(ctx).backend),
            spec_recorded(final(ctx).backend),
            lowered,
            *t,
            initial,
        ),
        lowered.kind is TempString ==> r is Ok,
        spec_sound(lowered) ==> (r is Err ==> backend_failed(r)),
        spec_sound(lowered) ==> (r matches Ok(initial) ==> !(initial.kind is TempString)
            && spec_sound(initial)),
        !(lowered.kind is TempString) && !spec_is_integral(**t) ==> r is Ok && r->Ok_0.kind
            == lowered.kind && final(ctx).backend.idle(&old(ctx).backend),
        match lowered.kind {
            IRValueRefKind::Val(v) => spec_is_integral(**t) ==> {
                &&& !spec_is_integral(*v.t) ==> r is Ok && r->Ok_0.kind == lowered.kind
                    && final(ctx).backend.idle(&old(ctx).backend)
                &&& spec_is_integral(*v.t) && spec_same_type(*v.t, **t) ==> r is Ok
                    && r->Ok_0.kind == IRValueRefKind::Val(IRNewValue { value: v.value, t: *t })
                    && final(ctx).backend.idle(&old(ctx).backend)
            },
            _ => true,
        },
{
    match lowered.kind {
        IRValueRefKind::TempString(text) => {
            let made = IRStaticVariable::from_str(
                &mut ctx.backend,
                text.as_str(),
                name.clone(),
                share(t),
            );
            let global = made?;
            Ok(IRValueRef::from_static(Rc::new(global)))
        },
        other => {
            let reference = IRValueRef { kind: other };
            if !is_integral(t) {
                return Ok(reference);
            }
            let ghost start = *ctx;
            let obtained = reference.obtain(&mut ctx.backend);
            let value = obtained?;
            let ghost loaded = *ctx;
            let ghost v = value;
            if !is_integral(&value.t) {
                return Ok(IRValueRef::from_val(value));
            }
            let cast = value.coerce_to(&mut ctx.backend, t);
            let fitted = cast?;
            proof {
                assert(spec_obtains(
                    spec_recorded(start.backend),
                    spec_recorded(loaded.backend),
                    lowered,
                    v,
                ));
                assert(spec_coerces(
                    spec_recorded(loaded.backend),
                    spec_recorded(ctx.backend),
                    v,
                    **t,
                    fitted,
                ));
            }
            Ok(IRValueRef::from_val(IRNewValue::new(fitted, share(t))))
        },
    }
}

/// Lowers a variable declaration.
fn declare_variable<'ctx>(
    ctx: &mut IRContext<'ctx>,
    func: &mut IRFunction,
    var_name: &WithHash,
    var_type: u64,
    value: &Option<Box<ASTTreeNode>>,
) -> (r: PositionlessResult<bool>)
    requires
        old(func).lctx.spec_wf(),
    ensures
        r is Err ==> spec_kept(final(func).lctx, old(func).lctx),
        final(ctx).only_built(old(ctx)),
        spec_same_signature(*final(func), *old(func)),
        spec_get(old(ctx).type_storage.map@, var_type) is None ==> fails_with(r, IR_FIND_TYPE)
            && final(ctx).backend.idle(&old(ctx).backend) && final(func).lctx == old(func).lctx,
        old(func).lctx.vars@.contains_key(var_name.hash) ==> r is Err,
        spec_passed(
            r,
            spec_static_scope(final(func).lctx),
            spec_declaration_outcome(
                spec_env(*old(ctx)),
                spec_static_scope(old(func).lctx),
                var_name.hash,
                var_type,
                *value,
            ),
        ),
        r is Ok ==> {
            &&& r == Ok::<bool, PositionlessError>(true)
            &&& final(func).lctx.spec_wf()
            &&& spec_grown(spec_scope(final(func).lctx), spec_scope(old(func).lctx))
            &&& spec_declares(
                spec_env(*old(ctx)),
                spec_recorded(old(ctx).backend),
                spec_recorded(final(ctx).backend),
                spec_scope(old(func).lctx),
                spec_scope(final(func).lctx),
                var_name.hash,
                var_type,
                *value,
            )
        },
{
    let var_t = match ctx.type_storage.get(var_type) {
        Some(v) => v,
        None => {
            return Err(PositionlessError::with_message(IR_FIND_TYPE));
        },
    };
    let initial = match value {
        Some(v) => {
            let got = parse_ir_value(Some(&func.lctx), ctx, v, None, true);
            let lowered = got?;
            let ghost with_value = *ctx;
            let ghost x = lowered;
            let held = hold_initial(ctx, lowered, &var_name.val, &var_t);
            let first = held?;
            proof {
                assert(spec_holds(
                    spec_recorded(with_value.backend),
                    spec_recorded(ctx.backend),
                    x,
                    var_t,
                    first,
                ));
            }
            Some(first)
        },
        None => None,
    };
    let ghost ready = *ctx;
    let ghost given = initial;
    let made = IRPointer::create(&mut ctx.backend, var_name.val.clone(), share(&var_t), initial);
    let ptr = made?;
    let ghost p = ptr;
    func.lctx.add_variable(var_name.hash, ptr)?;
    proof {
        assert(spec_takes_slot(
            spec_recorded(ready.backend),
            spec_recorded(ctx.backend),
            var_t,
            given,
            p,
        ));
    }
    Ok(true)
}

/// Lowers a return statement.
fn lower_return<'ctx>(
    ctx: &mut IRContext<'ctx>,
    lctx: &IRLocalContext,
    val: &Option<Box<ASTTreeNode>>,
) -> (r: PositionlessResult<bool>)
    ensures
        final(ctx).only_built(old(ctx)),
        r is Ok ==> r == Ok::<bool, PositionlessError>(true) && spec_returns(
            spec_env(*old(ctx)),
            lctx.vars@,
            spec_recorded(old(ctx).backend),
            spec_recorded(final(ctx).backend),
            *val,
        ),
        spec_settled(
            r,
            spec_return_refusal(spec_env(*old(ctx)), spec_static_scope(*lctx), *val),
        ),
        val matches Some(v) && !spec_is_value_node(**v) ==> fails_with(r, IR_VALUE_NODE) && final(ctx).backend.idle(&old(ctx).backend),
        val matches Some(v) && (**v matches ASTTreeNode::VariableReference(e)
            && !old(ctx).static_vars@.contains_key(e.hash) && !lctx.vars@.contains_key(e.hash))
            ==> fails_with(r, IR_FIND_VARIABLE) && final(ctx).backend.idle(&old(ctx).backend),
        val is None ==> match r {
            Ok(_) => final(ctx).backend.built(&old(ctx).backend, Instr::Return { value: None }),
            Err(_) => fails_with(r, INKWELL_FUNC_FAILED) && final(ctx).backend.idle(
                &old(ctx).backend,
            ),
        },
{
    match val {
        Some(v) => {
            let got = parse_ir_value(Some(lctx), ctx, v, None, false);
            let reference = got?;
            let ghost with_value = *ctx;
            let ghost x = reference;
            let obtained = reference.obtain(&mut ctx.backend);
            let value = obtained?;
            let ghost loaded = *ctx;
            match ctx.backend.build_return(Some(value.obtain())) {
                Ok(_) => {
                    proof {
                        assert(spec_obtains(
                            spec_recorded(with_value.backend),
                            spec_recorded(loaded.backend),
                            x,
                            value,
                        ));
                    }
                    Ok(true)
                },
                Err(e) => Err(backend_failure(e)),
            }
        },
        None => match ctx.backend.build_return(None) {
            Ok(_) => Ok(true),
            Err(e) => Err(backend_failure(e)),
        },
    }
}

/// Lowers a value that stands as a statement.
fn lower_statement_value<'ctx>(
    ctx: &mut IRContext<'ctx>,
    lctx: &IRLocalContext,
    node: &ASTTreeNode,
) -> (r: PositionlessResult<bool>)
    ensures
        final(ctx).only_built(old(ctx)),
        r is Ok ==> r == Ok::<bool, PositionlessError>(true) && spec_statement_value(
            spec_env(*old(ctx)),
            lctx.vars@,
            spec_recorded(old(ctx).backend),
            spec_recorded(final(ctx).backend),
            *node,
        ),
        spec_settled(
            r,
            spec_value_refusal(
                spec_value_verdict(
                    spec_env(*old(ctx)),
                    Some(spec_static_vars(lctx.vars@)),
                    *node,
                    None,
                    false,
                ),
            ),
        ),
        !spec_is_value_node(*node) ==> fails_with(r, IR_VALUE_NODE) && final(ctx).backend.idle(
            &old(ctx).backend,
        ),
        node matches ASTTreeNode::VariableReference(e) ==> final(ctx).backend.idle(
            &old(ctx).backend,
        ) && if old(ctx).static_vars@.contains_key(e.hash) || lctx.vars@.contains_key(e.hash) {
            r is Ok
        } else {
            fails_with(r, IR_FIND_VARIABLE)
        },
        node matches ASTTreeNode::StringLit(_) ==> if old(ctx).type_storage.map@.contains_key(
            POINTER_TYPE_HASH,
        ) {
            r is Ok
        } else {
            fails_with(r, IR_FIND_PRIMITIVE_TYPE) && final(ctx).backend.idle(&old(ctx).backend)
        },
{
    let got = parse_ir_value(Some(lctx), ctx, node, None, false);
    let yielded = got?;
    proof {
        assert(spec_evaluates(
            spec_env(*old(ctx)),
            lctx.vars@,
            spec_recorded(old(ctx).backend),
            spec_recorded(ctx.backend),
            *node,
            yielded,
        ));
    }
    Ok(true)
}

/// Lowers the members of a body in order. With `drop_body` the body is a
/// nested one that ends here: the depth falls by one and what was bound in the
/// body is dropped.
pub fn parse_ir_body<'ctx>(
    ctx: &mut IRContext<'ctx>,
    func: &mut IRFunction,
    nodes: &Vec<Box<ASTTreeNode>>,
    drop_body: bool,
) -> (r: PositionlessResult<bool>)
    requires
        old(func).lctx.spec_wf(),
        drop_body ==> old(func).lctx.current_depth > i64::MIN,
    ensures
        r is Err ==> spec_kept(final(func).lctx, old(func).lctx),
        final(ctx).only_built(old(ctx)),
        spec_same_signature(*final(func), *old(func)),
        r is Ok ==> {
            &&& r == Ok::<bool, PositionlessError>(true)
            &&& final(func).lctx.spec_wf()
            &&& drop_body ==> final(func).lctx.current_depth == old(func).lctx.current_depth - 1
                && final(func).lctx.vars@ == spec_pruned(
                old(func).lctx.vars@,
                old(func).lctx.current_depth - 1,
            )
            &&& !drop_body ==> spec_grown(spec_scope(final(func).lctx), spec_scope(old(func).lctx))
            &&& spec_body_lowers(
                spec_env(*old(ctx)),
                old(func).func,
                spec_recorded(old(ctx).backend),
                spec_recorded(final(ctx).backend),
                spec_scope(old(func).lctx),
                spec_scope(final(func).lctx),
                nodes@,
                drop_body,
            )
        },
        spec_settled(
            r,
            spec_refusal_of(
                spec_members_outcome(
                    spec_env(*old(ctx)),
                    spec_static_scope(old(func).lctx),
                    nodes@,
                ),
            ),
        ),
        !drop_body && r is Ok ==> spec_passed(
            r,
            spec_static_scope(final(func).lctx),
            spec_members_outcome(spec_env(*old(ctx)), spec_static_scope(old(func).lctx), nodes@),
        ),
        nodes@.len() == 0 ==> r is Ok && *final(ctx) == *old(ctx),
        nodes@.len() > 0 && !spec_is_body_member(*nodes@[0]) ==> fails_with(r, IR_BODY_MEMBER)
            && final(ctx).backend.idle(&old(ctx).backend) && final(func).lctx == old(func).lctx,
        nodes@.len() > 0 && (*nodes@[0] matches ASTTreeNode::MathResult {
            lval: _,
            rval: _,
            operator: _,
            assigns,
        } && !assigns) ==> fails_with(r, MATH_OP_NO_ASSIGN) && final(ctx).backend.idle(
            &old(ctx).backend,
        ) && final(func).lctx == old(func).lctx,
    decreases nodes, 0nat,
{
    let ghost start = *ctx;
    let ghost entry = *func;
    let ghost env = spec_env(start);
    let ghost f = entry.func;
    let ghost a = spec_recorded(start.backend);
    let ghost before = spec_scope(entry.lctx);
    let mut i: usize = 0;
    proof {
        assert(nodes@.subrange(0, nodes@.len() as int) =~= nodes@);
    }
    while i < nodes.len()
        invariant
            i <= nodes@.len(),
            start == *old(ctx),
            entry == *old(func),
            env == spec_env(start),
            f == entry.func,
            a == spec_recorded(start.backend),
            before == spec_scope(entry.lctx),
            entry.lctx.spec_wf(),
            drop_body ==> entry.lctx.current_depth > i64::MIN,
            ctx.only_built(&start),
            spec_same_signature(*func, entry),
            func.lctx.spec_wf(),
            spec_grown(spec_scope(func.lctx), before),
            i == 0 ==> *ctx == start && *func == entry,
            spec_members_outcome(
                env,
                spec_static_scope(func.lctx),
                nodes@.subrange(i as int, nodes@.len() as int),
            ) == spec_members_outcome(env, spec_static_scope(entry.lctx), nodes@),
            i > 0 ==> spec_is_body_member(*nodes@[0]) && !(*nodes@[0] matches ASTTreeNode::MathResult {
                lval: _,
                rval: _,
                operator: _,
                assigns,
            } && !assigns),
            forall|b: Recorded, after: Scope| #[trigger]
                spec_members_lower(
                    env,
                    f,
                    spec_recorded(ctx.backend),
                    b,
                    spec_scope(func.lctx),
                    after,
                    nodes@.subrange(i as int, nodes@.len() as int),
                ) ==> spec_members_lower(env, f, a, b, before, after, nodes@),
        decreases nodes@.len() - i,
    {
        let ghost prev = spec_recorded(ctx.backend);
        let ghost held = spec_scope(func.lctx);
        let ghost earlier = *ctx;
        let lowered = parse_ir_function_body_member(ctx, func, &nodes[i]);
        lowered?;
        proof {
            lemma_extends_trans(before.vars, held.vars, func.lctx.vars@, before.depth);
            assert(spec_env(earlier) == env);
            let tail = nodes@.subrange(i as int, nodes@.len() as int);
            assert(tail.subrange(1, tail.len() as int) =~= nodes@.subrange(
                i + 1,
                nodes@.len() as int,
            ));
            assert(*tail[0] == *nodes@[i as int]);
            assert(spec_reached(prev, spec_recorded(ctx.backend)));
            assert(spec_grown(spec_scope(func.lctx), held));
            assert(spec_member_lowers(
                env,
                f,
                prev,
                spec_recorded(ctx.backend),
                held,
                spec_scope(func.lctx),
                *tail[0],
            ));
            assert forall|b: Recorded, after: Scope| #[trigger]
                spec_members_lower(
                    env,
                    f,
                    spec_recorded(ctx.backend),
                    b,
                    spec_scope(func.lctx),
                    after,
                    nodes@.subrange(i + 1, nodes@.len() as int),
                ) implies spec_members_lower(env, f, a, b, before, after, nodes@) by {
                assert(spec_members_lower(env, f, prev, b, held, after, tail));
            }
        }
        i += 1;
    }
    let ghost inner = spec_scope(func.lctx);
    proof {
        let done = nodes@.subrange(i as int, nodes@.len() as int);
        assert(done.len() == 0);
        assert(spec_members_lower(
            env,
            f,
            spec_recorded(ctx.backend),
            spec_recorded(ctx.backend),
            inner,
            inner,
            done,
        ));
        assert(spec_members_lower(env, f, a, spec_recorded(ctx.backend), before, inner, nodes@));
    }
    if drop_body {
        proof {
            lemma_pruned_extension(
                func.lctx.vars@,
                entry.lctx.vars@,
                entry.lctx.current_depth as int,
            );
        }
        func.lctx.end_nested_body_depth();
    }
    proof {
        assert(spec_grown(inner, before));
    }
    Ok(true)
}

/// Lowers a call that stands as a statement or whose result is asked for. With
/// an owner the callee is a member function of the owner's type, and the owner
/// is handed to it as its first argument; without one the callee is a function
/// of the module.
pub fn parse_ir_function_call<'ctx>(
    ctx: &mut IRContext<'ctx>,
    lctx: &IRLocalContext,
    node: &ASTTreeNode,
    owner: Option<IRPointer>,
    grab_result: bool,
) -> (r: PositionlessResult<Option<IRValueRef>>)
    ensures
        final(ctx).only_built(old(ctx)),
        match *node {
            ASTTreeNode::FunctionCall { func, args } => {
                &&& spec_settled(
                    r,
                    spec_call_refusal(
                        spec_env(*old(ctx)),
                        spec_static_vars(lctx.vars@),
                        func.hash,
                        args@,
                        spec_left_type(owner),
                    ),
                )
                &&& spec_callee(spec_env(*old(ctx)), owner, func.hash) is None ==> r is Err
                &&& r matches Ok(v) ==> spec_call_lowers(
                    spec_env(*old(ctx)),
                    lctx.vars@,
                    spec_recorded(old(ctx).backend),
                    spec_recorded(final(ctx).backend),
                    func.hash,
                    args@,
                    owner,
                    grab_result,
                    v,
                )
            },
            _ => fails_with(r, IR_NODE_KIND) && final(ctx).backend.idle(&old(ctx).backend),
        },
{
    match node {
        ASTTreeNode::FunctionCall { func, args } => {
            let (receiver, first) = match owner {
                Some(l) => {
                    let first = IRValueRef::from_pointer(l.duplicate());
                    (Some(l), Some(first))
                },
                None => (None, None),
            };
            let callee = resolve_callee(ctx, &receiver, func.hash);
            let lowered = parse_ir_values(Some(lctx), ctx, args, first, false);
            let arguments = lowered?;
            let f = callee?;
            let ghost with_args = *ctx;
            let ghost refs = arguments@;
            let called = f.call(&mut ctx.backend, arguments, grab_result);
            let ret = called?;
            let ghost slot = ret;
            proof {
                assert(spec_calls(
                    spec_recorded(with_args.backend),
                    spec_recorded(ctx.backend),
                    *f,
                    refs,
                    grab_result,
                    slot,
                ));
            }
            match ret {
                Some(p) => Ok(Some(IRValueRef::from_pointer(p))),
                None => Ok(None),
            }
        },
        _ => Err(PositionlessError::with_message(IR_NODE_KIND)),
    }
}

/// Lowers one member of a function body.
///
/// A variable declaration resolves its type, lowers its initial value, takes a
/// stack slot and binds the name at the current depth; a name that is bound
/// anywhere in the function is refused. The declaration decides how the initial
/// value is held: the text of a string literal becomes a constant global, and
/// an integer is brought to the type of the variable. Arithmetic may stand as
/// a statement only where it assigns. An `if` and the body of a `for` are
/// bodies of their own: what they bind is gone when they end.
pub fn parse_ir_function_body_member<'ctx>(
    ctx: &mut IRContext<'ctx>,
    func: &mut IRFunction,
    node: &ASTTreeNode,
) -> (r: PositionlessResult<bool>)
    requires
        old(func).lctx.spec_wf(),
    ensures
        r is Err ==> spec_kept(final(func).lctx, old(func).lctx),
        final(ctx).only_built(old(ctx)),
        spec_same_signature(*final(func), *old(func)),
        !spec_is_body_member(*node) ==> fails_with(r, IR_BODY_MEMBER) && final(ctx).backend.idle(
            &old(ctx).backend,
        ) && final(func).lctx == old(func).lctx,
        node matches ASTTreeNode::MathResult { lval: _, rval: _, operator: _, assigns }
            ==> !*assigns ==> fails_with(r, MATH_OP_NO_ASSIGN) && final(ctx).backend.idle(
            &old(ctx).backend,
        ) && final(func).lctx == old(func).lctx,
        node matches ASTTreeNode::VarDeclaration { var_name, var_type, value: _ } ==> {
            &&& spec_get(old(ctx).type_storage.map@, *var_type) is None ==> fails_with(
                r,
                IR_FIND_TYPE,
            ) && final(ctx).backend.idle(&old(ctx).backend) && final(func).lctx == old(func).lctx
            &&& old(func).lctx.vars@.contains_key(var_name.hash) ==> r is Err
        },
        spec_passed(
            r,
            spec_static_scope(final(func).lctx),
            spec_member_outcome(spec_env(*old(ctx)), spec_static_scope(old(func).lctx), *node),
        ),
        r is Ok ==> {
            &&& r == Ok::<bool, PositionlessError>(true)
            &&& final(func).lctx.spec_wf()
            &&& spec_grown(spec_scope(final(func).lctx), spec_scope(old(func).lctx))
            &&& spec_member_lowers(
                spec_env(*old(ctx)),
                old(func).func,
                spec_recorded(old(ctx).backend),
                spec_recorded(final(ctx).backend),
                spec_scope(old(func).lctx),
                spec_scope(final(func).lctx),
                *node,
            )
        },
    decreases node, 2nat,
{
    match node {
        ASTTreeNode::VarDeclaration { var_name, var_type, value } => declare_variable(
            ctx,
            func,
            var_name,
            *var_type,
            value,
        ),
        ASTTreeNode::StructLRFunction { .. } => lower_statement_value(ctx, &func.lctx, node),
        ASTTreeNode::StructLRVariable { .. } => lower_statement_value(ctx, &func.lctx, node),
        ASTTreeNode::FunctionCall { .. } => {
            let got = parse_ir_function_call(ctx, &func.lctx, node, None, false);
            got?;
            Ok(true)
        },
        ASTTreeNode::IfStatement { .. } => parse_if_statement_ir(func, ctx, node),
        ASTTreeNode::ForBlock { .. } => parse_for_statement_ir(func, ctx, node),
        ASTTreeNode::MathResult { lval: _, rval: _, operator: _, assigns } => {
            if !*assigns {
                return Err(PositionlessError::with_message(MATH_OP_NO_ASSIGN));
            }
            lower_statement_value(ctx, &func.lctx, node)
        },
        ASTTreeNode::ReturnStatement { val } => lower_return(ctx, &func.lctx, val),
        _ => Err(PositionlessError::with_message(IR_BODY_MEMBER)),
    }
}

} // verus!

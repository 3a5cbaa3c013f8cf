//! The lowering rules: one for each kind of node of the syntax tree.

use vstd::prelude::*;

use crate::commons::err::{PositionlessError, PositionlessResult, fails_with};
use crate::commons::utils::map::{spec_get, spec_put};
use crate::errors::errors::{AST_INVALID_TREE, IR_ALREADY_EXISTING_ELEM, IR_FIND_PRIMITIVE_TYPE, IR_FIND_TYPE, IR_MISSING_DECLARATION, IR_STATIC_STR_TYPE, IR_VALUE_NODE};
use crate::ir::conv::func::{parse_ir_function_decl, parse_ir_shadow_function_decl};
use crate::ir::conv::structs::parse_ir_struct_decl;
use crate::ir::conv::func::{spec_declarable, spec_function_lowers, spec_signature_of, spec_signature_resolves};
use crate::ir::conv::judged::{spec_function_refusal, spec_static_refusal};
use crate::ir::utils::backend_failed;
use crate::ir::verdict::{Refusal, lemma_missing_is_apart, spec_refused, spec_settled};
use crate::ir::conv::lowered::{Env, spec_env, spec_lowers};
use crate::ir::conv::structs::{spec_struct_declarable, spec_struct_lowers, spec_struct_refusal};
use crate::ir::conv::val::{parse_ir_value, spec_is_value_node};
use crate::ir::ctx::IRContext;
use crate::ir::backend::Instr;
use crate::ir::irstruct::staticvars::{IRStaticVariable, StaticContent};
use crate::ir::refs::{IRValueRef, IRValueRefKind};
use crate::ir::rules::{Recorded, spec_function_declared, spec_obtains, spec_recorded, spec_step};
use crate::ir::types::{POINTER_TYPE_HASH, STATICSTR_TYPE_HASH};
use crate::ir::types::typing::spec_same_type;
use crate::ir::values::IRNewValue;
use crate::parser::ctx::ParserCtx;
use crate::utils::hash::{WithHash, spec_name_hash};

use crate::parser::ast::tree::ASTTreeNode;

pub mod branches;
pub mod cascade;
pub mod control;
pub mod func;
pub mod judged;
pub mod lowered;
pub mod members;
pub mod structs;
pub mod val;

verus! {

/// The hash under which a node of the top level declares what it declares.
pub open spec fn spec_declared_hash(node: ASTTreeNode) -> Option<u64> {
    match node {
        ASTTreeNode::StaticVariableDeclaration { name, .. } => Some(name.hash),
        ASTTreeNode::FunctionDeclaration { func_name, .. } => Some(func_name.hash),
        ASTTreeNode::ShadowFunctionDeclaration { func_name, .. } => Some(func_name.hash),
        ASTTreeNode::StructLayoutDeclaration { name, .. } => Some(name.hash),
        _ => None,
    }
}

/// Whether a node may stand at the top level of a file.
pub open spec fn spec_is_toplevel(node: ASTTreeNode) -> bool {
    node is StaticVariableDeclaration || node is FunctionDeclaration
        || node is ShadowFunctionDeclaration || node is StructLayoutDeclaration
}

/// How a static variable holds the value that was lowered for it. Text
/// becomes a constant global of the static string type, which the declared
/// type must be; another value is materialized and held as it is, under the
/// declared type.
pub open spec fn spec_static_holds(
    env: Env,
    a: Recorded,
    b: Recorded,
    lowered: IRValueRef,
    var_type: u64,
    declared: IRStaticVariable,
) -> bool {
    match spec_get(env.types, var_type) {
        None => false,
        Some(t) => match lowered.kind {
            IRValueRefKind::TempString(text) => match spec_get(env.types, STATICSTR_TYPE_HASH) {
                None => false,
                Some(str_type) => spec_same_type(*t, *str_type) && declared.t == str_type
                    && declared.content is Text && spec_step(
                    a,
                    b,
                    Instr::GlobalString {
                        len: vstd::utf8::encode_utf8(text@).len() as usize,
                        dest: declared.content->Text_0,
                    },
                ),
            },
            _ => declared.t == t && exists|v: IRNewValue| #[trigger]
                spec_obtains(a, b, lowered, v) && declared.content == StaticContent::Value(
                    v.value,
                ),
        },
    }
}

/// The declaration of a static variable: its value is lowered, outside of any
/// body, and held under the name of the variable.
pub open spec fn spec_static_lowers(
    env: Env,
    a: Recorded,
    b: Recorded,
    name: Seq<char>,
    var_type: u64,
    val: ASTTreeNode,
    declared: IRStaticVariable,
) -> bool {
    declared.name@ == name && exists|s: Recorded, lowered: IRValueRef| #[trigger]
        spec_static_holds(env, s, b, lowered, var_type, declared) && spec_lowers(
            env,
            None,
            a,
            s,
            val,
            None,
            true,
            lowered,
        )
}

/// What lowering a node of the top level declares and builds, by the kind of
/// the node. The name must not be claimed, and what is declared is declared
/// under its hash; the rest of the three maps is as it was.
pub open spec fn spec_toplevel_lowers(before: IRContext, after: IRContext, node: ASTTreeNode) -> bool {
    let env = spec_env(before);
    let a = spec_recorded(before.backend);
    let b = spec_recorded(after.backend);
    match node {
        ASTTreeNode::StaticVariableDeclaration { name, var_type, val } => {
            &&& !before.spec_is_key_taken(name.hash)
            &&& after.functions@ == before.functions@
            &&& after.type_storage.map@ == before.type_storage.map@
            &&& after.static_vars@.contains_key(name.hash)
            &&& after.static_vars@ == spec_put(
                before.static_vars@,
                name.hash,
                after.static_vars@[name.hash],
            )
            &&& spec_static_lowers(
                env,
                a,
                b,
                name.val@,
                var_type,
                *val,
                *after.static_vars@[name.hash],
            )
        },
        ASTTreeNode::FunctionDeclaration { func_name, args, body, returnType } => {
            &&& !before.spec_is_key_taken(func_name.hash)
            &&& after.static_vars@ == before.static_vars@
            &&& after.type_storage.map@ == before.type_storage.map@
            &&& after.functions@.contains_key(func_name.hash)
            &&& after.functions@ == spec_put(
                before.functions@,
                func_name.hash,
                after.functions@[func_name.hash],
            )
            &&& after.functions@[func_name.hash].name@ == func_name.val@
            &&& spec_function_lowers(
                env,
                a,
                b,
                args@,
                returnType,
                body@,
                *after.functions@[func_name.hash],
            )
        },
        ASTTreeNode::ShadowFunctionDeclaration { func_name, args, returnType } => {
            &&& !before.spec_is_key_taken(func_name.hash)
            &&& after.static_vars@ == before.static_vars@
            &&& after.type_storage.map@ == before.type_storage.map@
            &&& after.functions@.contains_key(func_name.hash)
            &&& after.functions@ == spec_put(
                before.functions@,
                func_name.hash,
                after.functions@[func_name.hash],
            )
            &&& after.functions@[func_name.hash].name@ == func_name.val@
            &&& after.functions@[func_name.hash].entry is None
            &&& spec_signature_of(
                env.types,
                args@,
                returnType,
                *after.functions@[func_name.hash],
            )
            &&& spec_function_declared(a, b, *after.functions@[func_name.hash])
        },
        ASTTreeNode::StructLayoutDeclaration { name, layout, members } => {
            &&& !before.spec_is_key_taken(name.hash)
            &&& after.static_vars@ == before.static_vars@
            &&& after.functions@ == before.functions@
            &&& after.type_storage.map@.contains_key(name.hash)
            &&& after.type_storage.map@ == spec_put(
                before.type_storage.map@,
                name.hash,
                after.type_storage.map@[name.hash],
            )
            &&& spec_struct_lowers(
                env.types,
                a,
                b,
                name.val@,
                layout,
                members@,
                *after.type_storage.map@[name.hash],
            )
        },
        _ => false,
    }
}

/// What declaring a static variable with a string literal for its value
/// comes to. Nothing but the context decides: the pointer type must be
/// registered for the literal to be lowered, the declared type must be
/// registered and be the static string type, and the name must be free.
pub open spec fn spec_static_text(
    ctx: IRContext,
    hash: u64,
    var_type: u64,
    r: PositionlessResult<bool>,
) -> bool {
    let types = ctx.type_storage.map@;
    if !types.contains_key(POINTER_TYPE_HASH) {
        fails_with(r, IR_FIND_PRIMITIVE_TYPE)
    } else if !types.contains_key(var_type) {
        fails_with(r, IR_FIND_TYPE)
    } else if !types.contains_key(STATICSTR_TYPE_HASH) {
        fails_with(r, IR_FIND_PRIMITIVE_TYPE)
    } else if !spec_same_type(*types[var_type], *types[STATICSTR_TYPE_HASH]) {
        fails_with(r, IR_STATIC_STR_TYPE)
    } else if ctx.spec_is_key_taken(hash) {
        fails_with(r, IR_ALREADY_EXISTING_ELEM)
    } else {
        r == Ok::<bool, PositionlessError>(true)
    }
}

/// Lowers the declaration of a static variable.
fn declare_static<'ctx>(
    ctx: &mut IRContext<'ctx>,
    name: &WithHash,
    var_type: u64,
    val: &ASTTreeNode,
) -> (r: PositionlessResult<bool>)
    ensures
        final(ctx).backend.advanced(&old(ctx).backend),
        final(ctx).ptr_type == old(ctx).ptr_type,
        final(ctx).functions@ == old(ctx).functions@,
        final(ctx).type_storage.map@ == old(ctx).type_storage.map@,
        r is Err ==> final(ctx).only_built(old(ctx)),
        old(ctx).spec_is_key_taken(name.hash) ==> r is Err,
        spec_get(old(ctx).type_storage.map@, var_type) is None ==> r is Err,
        !spec_is_value_node(*val) ==> fails_with(r, IR_VALUE_NODE) && final(ctx).backend.idle(
            &old(ctx).backend,
        ),
        *val is StringLit ==> spec_static_text(*old(ctx), name.hash, var_type, r),
        spec_settled(
            r,
            spec_static_refusal(
                spec_env(*old(ctx)),
                old(ctx).spec_is_key_taken(name.hash),
                var_type,
                *val,
            ),
        ),
        r is Ok ==> {
            &&& r == Ok::<bool, PositionlessError>(true)
            &&& !old(ctx).spec_is_key_taken(name.hash)
            &&& final(ctx).static_vars@.contains_key(name.hash)
            &&& final(ctx).static_vars@ == spec_put(
                old(ctx).static_vars@,
                name.hash,
                final(ctx).static_vars@[name.hash],
            )
            &&& spec_static_lowers(
                spec_env(*old(ctx)),
                spec_recorded(old(ctx).backend),
                spec_recorded(final(ctx).backend),
                name.val@,
                var_type,
                *val,
                *final(ctx).static_vars@[name.hash],
            )
        },
{
    let ghost start = *ctx;
    let lowered = parse_ir_value(None, ctx, val, None, true);
    let value = lowered?;
    let ghost x = value;
    let ghost s = spec_recorded(ctx.backend);
    let t = match ctx.type_storage.get(var_type) {
        Some(v) => v,
        None => {
            return Err(PositionlessError::with_message(IR_FIND_TYPE));
        },
    };
    let st = match value.kind {
        IRValueRefKind::TempString(text) => {
            let str_type = match ctx.type_storage.get(STATICSTR_TYPE_HASH) {
                Some(v) => v,
                None => {
                    return Err(PositionlessError::with_message(IR_FIND_PRIMITIVE_TYPE));
                },
            };
            if !t.is_same(&str_type) {
                return Err(PositionlessError::with_message(IR_STATIC_STR_TYPE));
            }
            let made = IRStaticVariable::from_str(
                &mut ctx.backend,
                text.as_str(),
                name.val.clone(),
                str_type,
            );
            made?
        },
        other => {
            let reference = IRValueRef { kind: other };
            let obtained = reference.obtain(&mut ctx.backend);
            let materialized = obtained?;
            let ghost v = materialized;
            let made = IRStaticVariable::from_val(name.val.clone(), t, materialized)?;
            proof {
                assert(spec_obtains(s, spec_recorded(ctx.backend), x, v));
            }
            made
        },
    };
    let ghost declared = st;
    proof {
        assert(spec_static_holds(
            spec_env(start),
            s,
            spec_recorded(ctx.backend),
            x,
            var_type,
            declared,
        ));
    }
    ctx.add_variable(name.hash, st)?;
    Ok(true)
}

/// Why the library refuses a node of the top level, if it does.
pub open spec fn spec_toplevel_refusal(ctx: IRContext, node: ASTTreeNode) -> Option<Refusal> {
    match node {
        ASTTreeNode::StaticVariableDeclaration { name, var_type, val } => spec_static_refusal(
            spec_env(ctx),
            ctx.spec_is_key_taken(name.hash),
            var_type,
            *val,
        ),
        ASTTreeNode::FunctionDeclaration { func_name, args, body, returnType } => spec_function_refusal(
            spec_env(ctx),
            ctx.spec_is_key_taken(func_name.hash),
            spec_signature_resolves(ctx.type_storage.map@, args@, returnType),
            body@,
        ),
        ASTTreeNode::ShadowFunctionDeclaration { func_name, args, returnType } => spec_function_refusal(
            spec_env(ctx),
            ctx.spec_is_key_taken(func_name.hash),
            spec_signature_resolves(ctx.type_storage.map@, args@, returnType),
            Seq::empty(),
        ),
        ASTTreeNode::StructLayoutDeclaration { name, layout: _, members } => spec_struct_refusal(
            ctx,
            name.hash,
            members@,
        ),
        _ => Some(Refusal::NoDeclaration),
    }
}

/// Whether lowering a node of the top level is sure to succeed, whatever the
/// instruction builder does: the declaration of a struct or layout, of a
/// function without a body, of a function that returns a value and has no
/// members, and of a static string, where nothing stands against it.
pub open spec fn spec_toplevel_sure(ctx: IRContext, node: ASTTreeNode) -> bool {
    match node {
        ASTTreeNode::StructLayoutDeclaration { name, layout: _, members } => spec_struct_declarable(
            ctx,
            name.hash,
            members@,
        ),
        ASTTreeNode::ShadowFunctionDeclaration { func_name, args, returnType } => spec_declarable(
            ctx,
            func_name.hash,
            args@,
            returnType,
        ),
        ASTTreeNode::FunctionDeclaration { func_name, args, body, returnType } => spec_declarable(
            ctx,
            func_name.hash,
            args@,
            returnType,
        ) && returnType is Some && body@.len() == 0,
        ASTTreeNode::StaticVariableDeclaration { name, var_type, val } => *val is StringLit
            && spec_static_text(ctx, name.hash, var_type, Ok::<bool, PositionlessError>(true)),
        _ => false,
    }
}

/// Whether lowering the declarations that `names` names, in order, is sure
/// to succeed: each is there and sure to succeed, in whatever context the
/// one before it leaves.
pub open spec fn spec_declarations_sure(
    ctx: IRContext,
    decls: Map<u64, Box<ASTTreeNode>>,
    names: Seq<String>,
) -> bool
    decreases names.len(),
{
    if names.len() == 0 {
        true
    } else {
        let hash = spec_name_hash(names[0]@);
        decls.contains_key(hash) && spec_toplevel_sure(ctx, *decls[hash]) && forall|
            mid: IRContext,
        | #[trigger]
            spec_toplevel_lowers(ctx, mid, *decls[hash]) ==> spec_declarations_sure(
                mid,
                decls,
                names.subrange(1, names.len() as int),
            )
    }
}

/// Lowers a node of the top level: a static variable, a function, or a struct
/// or layout. Whatever it declares is declared under the hash of its name, in
/// the one namespace that functions, static variables and types share.
pub fn parse_ir_node_toplevel<'ctx>(ctx: &mut IRContext<'ctx>, node: &ASTTreeNode) -> (r:
    PositionlessResult<bool>)
    ensures
        final(ctx).backend.advanced(&old(ctx).backend),
        final(ctx).ptr_type == old(ctx).ptr_type,
        !spec_is_toplevel(*node) ==> fails_with(r, AST_INVALID_TREE) && final(ctx).backend.idle(
            &old(ctx).backend,
        ),
        r is Err ==> final(ctx).only_built(old(ctx)),
        spec_declared_hash(*node) matches Some(hash) && old(ctx).spec_is_key_taken(hash) ==> r
            is Err,
        r is Ok ==> r == Ok::<bool, PositionlessError>(true) && spec_toplevel_lowers(
            *old(ctx),
            *final(ctx),
            *node,
        ),
        spec_settled(r, spec_toplevel_refusal(*old(ctx), *node)),
        spec_toplevel_sure(*old(ctx), *node) ==> r is Ok,
        match *node {
            ASTTreeNode::StructLayoutDeclaration { name, layout: _, members } => spec_struct_declarable(
                *old(ctx),
                name.hash,
                members@,
            ) ==> r is Ok,
            ASTTreeNode::ShadowFunctionDeclaration { func_name, args, returnType } => spec_declarable(
                *old(ctx),
                func_name.hash,
                args@,
                returnType,
            ) ==> r is Ok,
            ASTTreeNode::FunctionDeclaration { func_name, args, body, returnType } => spec_declarable(
                *old(ctx),
                func_name.hash,
                args@,
                returnType,
            ) && returnType is Some && body@.len() == 0 ==> r is Ok,
            ASTTreeNode::StaticVariableDeclaration { name, var_type, val } => *val is StringLit
                ==> spec_static_text(*old(ctx), name.hash, var_type, r),
            _ => true,
        },
{
    match node {
        ASTTreeNode::StaticVariableDeclaration { name, var_type, val } => declare_static(
            ctx,
            name,
            *var_type,
            val,
        ),
        ASTTreeNode::FunctionDeclaration { .. } => {
            parse_ir_function_decl(ctx, node)?;
            Ok(true)
        },
        ASTTreeNode::ShadowFunctionDeclaration { .. } => {
            parse_ir_shadow_function_decl(ctx, node)?;
            Ok(true)
        },
        ASTTreeNode::StructLayoutDeclaration { .. } => {
            parse_ir_struct_decl(ctx, node)?;
            Ok(true)
        },
        _ => Err(PositionlessError::with_message(AST_INVALID_TREE)),
    }
}

/// Lowering the declarations that `names` names, in order: each takes the
/// context from where the one before it left it.
pub open spec fn spec_declarations_lower(
    before: IRContext,
    after: IRContext,
    decls: Map<u64, Box<ASTTreeNode>>,
    names: Seq<String>,
) -> bool
    decreases names.len(),
{
    if names.len() == 0 {
        after == before
    } else {
        let hash = spec_name_hash(names[0]@);
        decls.contains_key(hash) && exists|mid: IRContext| #[trigger]
            spec_toplevel_lowers(before, mid, *decls[hash]) && spec_declarations_lower(
                mid,
                after,
                decls,
                names.subrange(1, names.len() as int),
            )
    }
}

/// Whether the pass over the declarations was refused by the library: the
/// declarations before one of them were lowered, and that one is missing, or
/// the library refuses it in the context that those before it left.
pub open spec fn spec_pass_refused(
    start: IRContext,
    decls: Map<u64, Box<ASTTreeNode>>,
    names: Seq<String>,
    r: PositionlessResult<bool>,
) -> bool {
    exists|k: int, mid: IRContext|
        0 <= k < names.len() && #[trigger] spec_declarations_lower(
            start,
            mid,
            decls,
            names.subrange(0, k),
        ) && match spec_get(decls, spec_name_hash(names[k]@)) {
            None => fails_with(r, IR_MISSING_DECLARATION),
            Some(node) => spec_toplevel_refusal(mid, *node) matches Some(c) && spec_refused(r, c),
        }
}

/// Lowering one more declaration after those that were lowered.
pub proof fn lemma_declarations_append(
    start: IRContext,
    mid: IRContext,
    next: IRContext,
    decls: Map<u64, Box<ASTTreeNode>>,
    names: Seq<String>,
    k: int,
)
    requires
        0 <= k < names.len(),
        spec_declarations_lower(start, mid, decls, names.subrange(0, k)),
        decls.contains_key(spec_name_hash(names[k]@)),
        spec_toplevel_lowers(mid, next, *decls[spec_name_hash(names[k]@)]),
    ensures
        spec_declarations_lower(start, next, decls, names.subrange(0, k + 1)),
    decreases k,
{
    let p = names.subrange(0, k);
    let q = names.subrange(0, k + 1);
    assert(q[0] == names[0]);
    if k == 0 {
        assert(q.subrange(1, q.len() as int) =~= Seq::<String>::empty());
        assert(spec_declarations_lower(next, next, decls, q.subrange(1, q.len() as int)));
    } else {
        let hash = spec_name_hash(p[0]@);
        let m1 = choose|m1: IRContext| #[trigger]
            spec_toplevel_lowers(start, m1, *decls[hash]) && spec_declarations_lower(
                m1,
                mid,
                decls,
                p.subrange(1, p.len() as int),
            );
        let tail = names.subrange(1, names.len() as int);
        assert(tail.subrange(0, k - 1) =~= p.subrange(1, p.len() as int));
        assert(tail[k - 1] == names[k]);
        lemma_declarations_append(m1, mid, next, decls, tail, k - 1);
        assert(tail.subrange(0, k) =~= q.subrange(1, q.len() as int));
        assert(p[0] == names[0]);
    }
}

/// Lowers the declarations of a parsed file, in the order in which they stood
/// in the file. The first declaration that fails ends the pass: nothing is
/// lowered after it.
pub fn lower_declarations<'ctx>(ctx: &mut IRContext<'ctx>, parsed: &ParserCtx) -> (r:
    PositionlessResult<bool>)
    ensures
        final(ctx).backend.advanced(&old(ctx).backend),
        final(ctx).ptr_type == old(ctx).ptr_type,
        r is Ok ==> r == Ok::<bool, PositionlessError>(true) && spec_declarations_lower(
            *old(ctx),
            *final(ctx),
            parsed.map@,
            parsed.iter_order@,
        ),
        (exists|i: int|
            0 <= i < parsed.iter_order@.len() && !parsed.map@.contains_key(
                spec_name_hash((#[trigger] parsed.iter_order@[i])@),
            )) ==> r is Err,
        spec_declarations_sure(*old(ctx), parsed.map@, parsed.iter_order@) ==> r is Ok,
        r is Err ==> backend_failed(r) || spec_pass_refused(
            *old(ctx),
            parsed.map@,
            parsed.iter_order@,
            r,
        ),
        fails_with(r, IR_MISSING_DECLARATION) ==> exists|i: int|
            0 <= i < parsed.iter_order@.len() && !parsed.map@.contains_key(
                spec_name_hash((#[trigger] parsed.iter_order@[i])@),
            ),
        parsed.iter_order@.len() == 0 ==> r is Ok && *final(ctx) == *old(ctx),
        parsed.iter_order@.len() > 0 ==> match spec_get(
            parsed.map@,
            spec_name_hash(parsed.iter_order@[0]@),
        ) {
            None => fails_with(r, IR_MISSING_DECLARATION) && *final(ctx) == *old(ctx),
            Some(node) => {
                &&& !spec_is_toplevel(*node) ==> fails_with(r, AST_INVALID_TREE) && final(ctx).only_built(old(ctx)) && final(ctx).backend.idle(&old(ctx).backend)
                &&& (spec_declared_hash(*node) matches Some(hash) && old(ctx).spec_is_key_taken(
                    hash,
                )) ==> r is Err && final(ctx).only_built(old(ctx))
            },
        },
{
    let ghost start = *ctx;
    let ghost names = parsed.iter_order@;
    let mut i: usize = 0;
    proof {
        assert(names.subrange(0, names.len() as int) =~= names);
        assert(names.subrange(0, 0) =~= Seq::<String>::empty());
    }
    while i < parsed.iter_order.len()
        invariant
            i <= names.len(),
            names == parsed.iter_order@,
            start == *old(ctx),
            ctx.backend.advanced(&start.backend),
            ctx.ptr_type == start.ptr_type,
            i == 0 ==> *ctx == start,
            spec_declarations_lower(start, *ctx, parsed.map@, names.subrange(0, i as int)),
            spec_declarations_sure(start, parsed.map@, names) ==> spec_declarations_sure(
                *ctx,
                parsed.map@,
                names.subrange(i as int, names.len() as int),
            ),
            i > 0 ==> (spec_get(parsed.map@, spec_name_hash(names[0]@)) matches Some(node)
                && spec_is_toplevel(*node) && !(spec_declared_hash(*node) matches Some(hash)
                && start.spec_is_key_taken(hash))),
            forall|k: int|
                0 <= k < i ==> parsed.map@.contains_key(spec_name_hash((#[trigger] names[k])@)),
            forall|after: IRContext| #[trigger]
                spec_declarations_lower(
                    *ctx,
                    after,
                    parsed.map@,
                    names.subrange(i as int, names.len() as int),
                ) ==> spec_declarations_lower(start, after, parsed.map@, names),
        decreases names.len() - i,
    {
        let node = match parsed.get(parsed.iter_order[i].as_str()) {
            Some(node) => node,
            None => {
                return Err(PositionlessError::with_message(IR_MISSING_DECLARATION));
            },
        };
        let ghost before = *ctx;
        let lowered = parse_ir_node_toplevel(ctx, node);
        proof {
            if lowered is Err {
                if fails_with(lowered, IR_MISSING_DECLARATION) {
                    lemma_missing_is_apart(lowered);
                }
            }
            let rest = names.subrange(i as int, names.len() as int);
            assert(rest[0] == names[i as int]);
            assert(rest.subrange(1, rest.len() as int) =~= names.subrange(
                i + 1,
                names.len() as int,
            ));
        }
        lowered?;
        proof {
            let rest = names.subrange(i as int, names.len() as int);
            assert(rest.subrange(1, rest.len() as int) =~= names.subrange(
                i + 1,
                names.len() as int,
            ));
            assert(rest[0] == names[i as int]);
            assert(spec_toplevel_lowers(before, *ctx, **node));
            lemma_declarations_append(start, before, *ctx, parsed.map@, names, i as int);
            assert forall|after: IRContext| #[trigger]
                spec_declarations_lower(
                    *ctx,
                    after,
                    parsed.map@,
                    names.subrange(i + 1, names.len() as int),
                ) implies spec_declarations_lower(start, after, parsed.map@, names) by {
                assert(spec_declarations_lower(before, after, parsed.map@, rest));
            }
        }
        i += 1;
    }
    proof {
        assert(spec_declarations_lower(
            *ctx,
            *ctx,
            parsed.map@,
            names.subrange(i as int, names.len() as int),
        ));
    }
    Ok(true)
}

} // verus!

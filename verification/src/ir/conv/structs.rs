//! Lowering of struct and layout declarations.

use vstd::prelude::*;
use std::rc::Rc;
use crate::commons::err::{PositionlessError, PositionlessResult, fails_with};
use crate::commons::utils::map::{spec_get, spec_put};
use crate::errors::errors::{IR_ALREADY_EXISTING_ELEM, IR_FIND_TYPE, IR_NODE_KIND};
use crate::ir::ctx::IRContext;
use crate::ir::irstruct::funcs::IRFunction;
use crate::ir::irstruct::structs::{IRStructuredType, spec_field_index};
use crate::ir::rules::{Recorded, spec_recorded, spec_struct_declared};
use crate::ir::types::typing::{IRType, spec_base_type};
use crate::ir::verdict::{Refusal, spec_settled};
use crate::parser::ast::tree::ASTTreeNode;

verus! {

/// The hashes of the field names of a member list, in order; what is no field
/// is passed over.
pub open spec fn spec_member_hashes(members: Seq<Box<ASTTreeNode>>) -> Seq<u64>
    decreases members.len(),
{
    if members.len() == 0 {
        Seq::empty()
    } else {
        let front = spec_member_hashes(members.drop_last());
        match *members.last() {
            ASTTreeNode::StructFieldMember { name, member_type: _ } => front.push(name.hash),
            _ => front,
        }
    }
}

/// The hashes of the type names of the fields of a member list, in order.
pub open spec fn spec_member_types(members: Seq<Box<ASTTreeNode>>) -> Seq<u64>
    decreases members.len(),
{
    if members.len() == 0 {
        Seq::empty()
    } else {
        let front = spec_member_types(members.drop_last());
        match *members.last() {
            ASTTreeNode::StructFieldMember { name: _, member_type } => front.push(member_type),
            _ => front,
        }
    }
}

/// Whether every type hash of a list is registered.
pub open spec fn spec_all_registered(types: Map<u64, Rc<IRType>>, hashes: Seq<u64>) -> bool {
    forall|i: int| 0 <= i < hashes.len() ==> types.contains_key(#[trigger] hashes[i])
}

/// Why the library refuses the declaration of a struct or layout, if it does:
/// the name is claimed, the type of a field is not registered, or the fields
/// cannot be counted.
pub open spec fn spec_struct_refusal(
    ctx: IRContext,
    hash: u64,
    members: Seq<Box<ASTTreeNode>>,
) -> Option<Refusal> {
    if ctx.spec_is_key_taken(hash) {
        Some(Refusal::Taken)
    } else if !spec_all_registered(ctx.type_storage.map@, spec_member_types(members)) {
        Some(Refusal::UnknownType)
    } else if spec_member_types(members).len() > u32::MAX {
        Some(Refusal::FieldIndex)
    } else {
        None
    }
}

/// Whether a struct or layout with these members can be declared under
/// `hash`: the name is free, the type of each field is registered and was
/// issued by the backend, and the fields can be counted.
pub open spec fn spec_struct_declarable(
    ctx: IRContext,
    hash: u64,
    members: Seq<Box<ASTTreeNode>>,
) -> bool {
    let types = ctx.type_storage.map@;
    let hashes = spec_member_types(members);
    &&& !ctx.spec_is_key_taken(hash)
    &&& hashes.len() <= u32::MAX
    &&& forall|i: int|
        0 <= i < hashes.len() ==> types.contains_key(#[trigger] hashes[i]) && spec_base_type(
            *types[hashes[i]],
        ).index < ctx.backend.issued().types
}

/// The declaration of a struct or a layout: the type of each field is the one
/// that is registered under the hash of its type's name, each field has the
/// index of its place in the declaration, the aggregate has no member
/// functions, and its type is declared in the module.
pub open spec fn spec_struct_lowers(
    types: Map<u64, Rc<IRType>>,
    a: Recorded,
    b: Recorded,
    name: Seq<char>,
    layout: bool,
    members: Seq<Box<ASTTreeNode>>,
    t: IRType,
) -> bool {
    &&& layout ==> t is Layout
    &&& !layout ==> t is Struct
    &&& {
        let d = if layout {
            t->Layout_0
        } else {
            t->Struct_0
        };
        &&& d.name@ == name
        &&& d.is_layout == layout
        &&& d.field_to_index@ == spec_field_index(spec_member_hashes(members))
        &&& d.field_types@.len() == spec_member_types(members).len()
        &&& forall|i: int|
            0 <= i < d.field_types@.len() ==> Some(#[trigger] d.field_types@[i]) == spec_get(
                types,
                spec_member_types(members)[i],
            )
        &&& d.functions@ == Map::<u64, Rc<IRFunction>>::empty()
        &&& spec_struct_declared(a, b, *d)
    }
}

/// Lowers the declaration of a struct or a layout: resolves the type of each
/// field, builds the descriptor and registers the type under the hash of its
/// name. The name must not be claimed yet.
pub fn parse_ir_struct_decl<'ctx>(ctx: &mut IRContext<'ctx>, node: &ASTTreeNode) -> (r:
    PositionlessResult<Rc<IRType>>)
    ensures
        final(ctx).backend.advanced(&old(ctx).backend),
        final(ctx).ptr_type == old(ctx).ptr_type,
        final(ctx).functions@ == old(ctx).functions@,
        final(ctx).static_vars@ == old(ctx).static_vars@,
        r is Err ==> final(ctx).type_storage.map@ == old(ctx).type_storage.map@,
        match *node {
            ASTTreeNode::StructLayoutDeclaration { name, layout, members } => {
                &&& old(ctx).spec_is_key_taken(name.hash) ==> fails_with(
                    r,
                    IR_ALREADY_EXISTING_ELEM,
                ) && final(ctx).backend.idle(&old(ctx).backend)
                &&& !old(ctx).spec_is_key_taken(name.hash) && !spec_all_registered(
                    old(ctx).type_storage.map@,
                    spec_member_types(members@),
                ) ==> fails_with(r, IR_FIND_TYPE) && final(ctx).backend.idle(&old(ctx).backend)
                &&& spec_struct_declarable(*old(ctx), name.hash, members@) ==> r is Ok
                &&& spec_settled(r, spec_struct_refusal(*old(ctx), name.hash, members@))
                &&& r matches Ok(t) ==> {
                    &&& !old(ctx).spec_is_key_taken(name.hash)
                    &&& final(ctx).type_storage.map@ == spec_put(
                        old(ctx).type_storage.map@,
                        name.hash,
                        t,
                    )
                    &&& spec_struct_lowers(
                        old(ctx).type_storage.map@,
                        spec_recorded(old(ctx).backend),
                        spec_recorded(final(ctx).backend),
                        name.val@,
                        layout,
                        members@,
                        *t,
                    )
                }
            },
            _ => fails_with(r, IR_NODE_KIND) && final(ctx).backend.idle(&old(ctx).backend),
        },
{
    match node {
        ASTTreeNode::StructLayoutDeclaration { name, layout, members } => {
            if ctx.is_key_taken(name.hash) {
                return Err(PositionlessError::with_message(IR_ALREADY_EXISTING_ELEM));
            }
            let mut fields: Vec<(u64, Rc<IRType>)> = Vec::new();
            let mut i: usize = 0;
            while i < members.len()
                invariant
                    i <= members@.len(),
                    *ctx == *old(ctx),
                    !old(ctx).spec_is_key_taken(name.hash),
                    *node matches ASTTreeNode::StructLayoutDeclaration {
                        name: n,
                        layout: l,
                        members: m,
                    } && n == *name && l == *layout && m == *members,
                    fields@.len() == spec_member_types(members@.take(i as int)).len(),
                    spec_member_hashes(members@.take(i as int)).len() == fields@.len(),
                    forall|k: int|
                        0 <= k < fields@.len() ==> (#[trigger] fields@[k]).0 == spec_member_hashes(
                            members@.take(i as int),
                        )[k] && Some(fields@[k].1) == spec_get(
                            ctx.type_storage.map@,
                            spec_member_types(members@.take(i as int))[k],
                        ),
                    spec_all_registered(
                        ctx.type_storage.map@,
                        spec_member_types(members@.take(i as int)),
                    ),
                decreases members@.len() - i,
            {
                proof {
                    assert(members@.take(i + 1).drop_last() =~= members@.take(i as int));
                    assert(members@.take(i + 1).last() == members@[i as int]);
                }
                match &*members[i] {
                    ASTTreeNode::StructFieldMember { name: field, member_type } => {
                        let ir_type = match ctx.type_storage.get(*member_type) {
                            Some(v) => v,
                            None => {
                                proof {
                                    lemma_member_types_prefix(members@, i + 1);
                                    let upto = spec_member_types(members@.take(i + 1));
                                    let full = spec_member_types(members@);
                                    let k = upto.len() - 1;
                                    assert(upto[k] == *member_type);
                                    assert(full[k] == *member_type);
                                    assert(!ctx.type_storage.map@.contains_key(full[k]));
                                }
                                return Err(PositionlessError::with_message(IR_FIND_TYPE));
                            },
                        };
                        fields.push((field.hash, ir_type));
                    },
                    _ => {},
                }
                i += 1;
            }
            proof {
                assert(members@.take(i as int) =~= members@);
            }
            let ghost hashes = spec_member_hashes(members@);
            let made = IRStructuredType::new(&mut ctx.backend, name.val.clone(), *layout, fields);
            let descriptor = match made {
                Ok(d) => d,
                Err(e) => {
                    return Err(e);
                },
            };
            proof {
                assert(crate::ir::irstruct::structs::spec_field_hashes(fields@) =~= hashes);
            }
            let struct_type = Rc::new(descriptor);
            if *layout {
                ctx.type_storage.insert(name.hash, IRType::Layout(struct_type));
            } else {
                ctx.type_storage.insert(name.hash, IRType::Struct(struct_type));
            }
            match ctx.type_storage.get(name.hash) {
                Some(v) => Ok(v),
                None => Err(PositionlessError::with_message(IR_FIND_TYPE)),
            }
        },
        _ => Err(PositionlessError::with_message(IR_NODE_KIND)),
    }
}

/// The type hashes of a prefix of a member list are a prefix of those of the
/// list.
pub proof fn lemma_member_types_prefix(members: Seq<Box<ASTTreeNode>>, n: int)
    requires
        0 <= n <= members.len(),
    ensures
        spec_member_types(members.take(n)).len() <= spec_member_types(members).len(),
        forall|k: int|
            0 <= k < spec_member_types(members.take(n)).len() ==> spec_member_types(
                members.take(n),
            )[k] == spec_member_types(members)[k],
    decreases members.len(),
{
    if n == members.len() {
        assert(members.take(n) =~= members);
    } else {
        lemma_member_types_prefix(members.drop_last(), n);
        assert(members.drop_last().take(n) =~= members.take(n));
    }
}

} // verus!

//! The descriptor of an aggregate type: its fields in order, the index of each
//! field by the hash of its name, and, for a struct, its member functions.

use vstd::prelude::*;
use std::rc::Rc;
use crate::commons::err::{PositionlessError, PositionlessResult, fails_with};
use crate::commons::utils::map::{HashedMap, spec_get, spec_put};
use crate::errors::errors::{IR_FIELD, IR_FIELD_INDEX, IR_LAYOUT_FUNCS, IR_LAYOUT_FUNC_USAGE, IR_STRUCT_FUNCTION};
use crate::ir::backend::{Backend, Instr, TypeHandle, all_types_known};
use crate::ir::irstruct::funcs::IRFunction;
use crate::ir::irstruct::ptr::IRPointer;
use crate::ir::types::typing::{IRType, spec_base_type};
use crate::ir::utils::{backend_failed, backend_failure, share};

verus! {

/// The descriptor of a struct or a layout. A layout is a pure shape of data and
/// never has member functions; a struct may have them.
pub struct IRStructuredType {
    pub backend_type: TypeHandle,
    pub field_to_index: HashedMap<u32>,
    pub field_types: Vec<Rc<IRType>>,
    pub functions: HashedMap<Rc<IRFunction>>,
    pub name: String,
    pub is_layout: bool,
}

/// The index of each field by the hash of its name: the place of the field in
/// the declaration. Of two fields with the same hash the later one is found.
pub open spec fn spec_field_index(hashes: Seq<u64>) -> Map<u64, u32>
    decreases hashes.len(),
{
    if hashes.len() == 0 {
        Map::empty()
    } else {
        spec_field_index(hashes.drop_last()).insert(hashes.last(), (hashes.len() - 1) as u32)
    }
}

/// The hashes of a field list.
pub open spec fn spec_field_hashes(fields: Seq<(u64, Rc<IRType>)>) -> Seq<u64> {
    Seq::new(fields.len(), |i: int| fields[i].0)
}

/// The types of a field list.
pub open spec fn spec_field_types(fields: Seq<(u64, Rc<IRType>)>) -> Seq<Rc<IRType>> {
    Seq::new(fields.len(), |i: int| fields[i].1)
}

/// The code generator's types of a list of types.
pub open spec fn spec_base_types(types: Seq<Rc<IRType>>) -> Seq<TypeHandle> {
    Seq::new(types.len(), |i: int| spec_base_type(*types[i]))
}

/// Field addressing: the index under a hash is the place of a field that has
/// that hash, and of the last such field. So resolving one field never yields
/// the place of a field with another hash.
pub proof fn law_field_index(hashes: Seq<u64>, hash: u64)
    requires
        hashes.len() <= u32::MAX,
    ensures
        spec_field_index(hashes).contains_key(hash) <==> exists|i: int|
            0 <= i < hashes.len() && hashes[i] == hash,
        spec_field_index(hashes).contains_key(hash) ==> {
            let k = spec_field_index(hashes)[hash] as int;
            &&& 0 <= k < hashes.len()
            &&& hashes[k] == hash
            &&& forall|i: int| k < i < hashes.len() ==> hashes[i] != hash
        },
    decreases hashes.len(),
{
    if hashes.len() > 0 {
        let front = hashes.drop_last();
        law_field_index(front, hash);
        if hashes.last() != hash {
            if spec_field_index(front).contains_key(hash) {
                let i = choose|i: int| 0 <= i < front.len() && front[i] == hash;
                assert(hashes[i] == hash);
                let k = spec_field_index(front)[hash] as int;
                assert(spec_field_index(hashes)[hash] == spec_field_index(front)[hash]);
                assert(hashes[k] == front[k]);
                assert forall|i: int| k < i < hashes.len() implies hashes[i] != hash by {
                    if i < front.len() {
                        assert(front[i] != hash);
                    }
                }
            }
            if exists|i: int| 0 <= i < hashes.len() && hashes[i] == hash {
                let i = choose|i: int| 0 <= i < hashes.len() && hashes[i] == hash;
                assert(front[i] == hash);
            }
        } else {
            assert(hashes[hashes.len() - 1] == hash);
            assert(spec_field_index(hashes)[hash] == (hashes.len() - 1) as u32);
        }
    }
}

/// Two fields whose hashes differ have different places.
pub proof fn law_fields_apart(hashes: Seq<u64>, a: u64, b: u64)
    requires
        hashes.len() <= u32::MAX,
        a != b,
        spec_field_index(hashes).contains_key(a),
        spec_field_index(hashes).contains_key(b),
    ensures
        spec_field_index(hashes)[a] != spec_field_index(hashes)[b],
{
    law_field_index(hashes, a);
    law_field_index(hashes, b);
}

impl IRStructuredType {
    /// Every index in the field map is the place of a field.
    pub open spec fn indexed_within(&self) -> bool {
        forall|h: u64| #[trigger]
            self.field_to_index@.contains_key(h) ==> self.field_to_index@[h]
                < self.field_types@.len()
    }

    /// The descriptor of an aggregate with the given fields, in their order. A
    /// struct is packed, a layout is not.
    pub fn new<'ctx>(
        backend: &mut Backend<'ctx>,
        name: String,
        layout: bool,
        fields: Vec<(u64, Rc<IRType>)>,
    ) -> (r: PositionlessResult<Self>)
        ensures
            match r {
                Ok(d) => {
                    &&& fields@.len() <= u32::MAX
                    &&& d.name == name
                    &&& d.is_layout == layout
                    &&& d.field_types@ == spec_field_types(fields@)
                    &&& d.field_to_index@ == spec_field_index(spec_field_hashes(fields@))
                    &&& d.functions@ == Map::<u64, Rc<IRFunction>>::empty()
                    &&& d.indexed_within()
                    &&& final(backend).advanced(old(backend))
                    &&& crate::ir::rules::spec_struct_declared(
                        crate::ir::rules::spec_recorded(*old(backend)),
                        crate::ir::rules::spec_recorded(*final(backend)),
                        d,
                    )
                },
                Err(_) => {
                    &&& final(backend).idle(old(backend))
                    &&& if fields@.len() > u32::MAX {
                        fails_with(r, IR_FIELD_INDEX)
                    } else {
                        backend_failed(r) && !all_types_known(
                            spec_base_types(spec_field_types(fields@)),
                            old(backend).issued().types,
                        )
                    }
                },
            },
    {
        if fields.len() > u32::MAX as usize {
            return Err(PositionlessError::with_message(IR_FIELD_INDEX));
        }
        let mut map: HashedMap<u32> = HashedMap::new(fields.len());
        let mut type_vec: Vec<TypeHandle> = Vec::new();
        let mut field_types: Vec<Rc<IRType>> = Vec::new();
        let mut ind: u32 = 0;
        while (ind as usize) < fields.len()
            invariant
                fields@.len() <= u32::MAX,
                ind <= fields@.len(),
                field_types@ == spec_field_types(fields@).take(ind as int),
                type_vec@ == spec_base_types(spec_field_types(fields@)).take(ind as int),
                map@ == spec_field_index(spec_field_hashes(fields@).take(ind as int)),
                forall|h: u64| #[trigger] map@.contains_key(h) ==> map@[h] < ind,
            decreases fields@.len() - ind,
        {
            let entry = &fields[ind as usize];
            proof {
                let hs = spec_field_hashes(fields@);
                assert(hs.take(ind + 1).drop_last() =~= hs.take(ind as int));
                assert(hs.take(ind + 1).last() == entry.0);
            }
            map.put(entry.0, ind);
            field_types.push(share(&entry.1));
            type_vec.push(entry.1.get_inkwell_basetype());
            assert(field_types@ =~= spec_field_types(fields@).take(ind + 1));
            assert(type_vec@ =~= spec_base_types(spec_field_types(fields@)).take(ind + 1));
            ind = ind + 1;
        }
        proof {
            assert(spec_field_types(fields@).take(ind as int) =~= spec_field_types(fields@));
            assert(spec_field_hashes(fields@).take(ind as int) =~= spec_field_hashes(fields@));
            assert(spec_base_types(spec_field_types(fields@)).take(ind as int) =~= spec_base_types(
                spec_field_types(fields@),
            ));
        }
        let backend_type = match backend.struct_type(&type_vec, !layout) {
            Ok(t) => t,
            Err(e) => {
                return Err(backend_failure(e));
            },
        };
        Ok(
            IRStructuredType {
                backend_type,
                field_to_index: map,
                name,
                is_layout: layout,
                field_types,
                functions: HashedMap::new(0),
            },
        )
    }

    /// Attaches a member function under the hash of its name. A layout takes
    /// none.
    pub fn append_function(&mut self, hash: u64, func: IRFunction) -> (r: PositionlessResult<bool>)
        ensures
            old(self).is_layout ==> fails_with(r, IR_LAYOUT_FUNCS) && *final(self) == *old(self),
            !old(self).is_layout ==> {
                &&& r == Ok::<bool, PositionlessError>(true)
                &&& final(self).functions@ == spec_put(old(self).functions@, hash, Rc::new(func))
                &&& final(self).field_to_index == old(self).field_to_index
                &&& final(self).field_types == old(self).field_types
                &&& final(self).backend_type == old(self).backend_type
                &&& final(self).name == old(self).name
                &&& final(self).is_layout == old(self).is_layout
            },
    {
        if self.is_layout {
            return Err(PositionlessError::with_message(IR_LAYOUT_FUNCS));
        }
        self.functions.put(hash, Rc::new(func));
        Ok(true)
    }

    /// The member function under a hash. A layout has none.
    pub fn get_function(&self, hash: u64) -> (r: PositionlessResult<Rc<IRFunction>>)
        ensures
            self.is_layout ==> fails_with(r, IR_LAYOUT_FUNC_USAGE),
            !self.is_layout ==> match spec_get(self.functions@, hash) {
                Some(f) => r == Ok::<Rc<IRFunction>, PositionlessError>(f),
                None => fails_with(r, IR_STRUCT_FUNCTION),
            },
    {
        if self.is_layout {
            return Err(PositionlessError::with_message(IR_LAYOUT_FUNC_USAGE));
        }
        match self.functions.get(hash) {
            Some(v) => Ok(share(v)),
            None => Err(PositionlessError::with_message(IR_STRUCT_FUNCTION)),
        }
    }

    /// A pointer to the field at place `ind` of the instance that `instance`
    /// points to.
    pub fn get_pointer_for_field_index<'ctx>(
        &self,
        backend: &mut Backend<'ctx>,
        instance: &IRPointer,
        ind: u32,
    ) -> (r: PositionlessResult<IRPointer>)
        ensures
            ind >= self.field_types@.len() ==> fails_with(r, IR_FIELD_INDEX) && final(backend).idle(
                old(backend),
            ),
            ind < self.field_types@.len() ==> match r {
                Ok(p) => p.t == self.field_types@[ind as int] && final(backend).built(
                    old(backend),
                    Instr::FieldPointer { ptr: instance.ptr, index: ind, dest: p.ptr },
                ),
                Err(_) => backend_failed(r) && final(backend).idle(old(backend)),
            },
    {
        if ind as usize >= self.field_types.len() {
            return Err(PositionlessError::with_message(IR_FIELD_INDEX));
        }
        let field_ptr = match backend.build_field_pointer(instance.ptr, ind, "field_ptr") {
            Ok(v) => v,
            Err(e) => {
                return Err(backend_failure(e));
            },
        };
        let field_type = share(&self.field_types[ind as usize]);
        Ok(IRPointer::new(field_ptr, field_type, "__inner_field_ptr".to_string()))
    }

    /// As `get_pointer_for_field_index`, taking the instance pointer by value.
    pub fn get_pointer_for_field_index_noref<'ctx>(
        &self,
        backend: &mut Backend<'ctx>,
        instance: IRPointer,
        ind: u32,
    ) -> (r: PositionlessResult<IRPointer>)
        ensures
            ind >= self.field_types@.len() ==> fails_with(r, IR_FIELD_INDEX) && final(backend).idle(
                old(backend),
            ),
            ind < self.field_types@.len() ==> match r {
                Ok(p) => p.t == self.field_types@[ind as int] && final(backend).built(
                    old(backend),
                    Instr::FieldPointer { ptr: instance.ptr, index: ind, dest: p.ptr },
                ),
                Err(_) => backend_failed(r) && final(backend).idle(old(backend)),
            },
    {
        self.get_pointer_for_field_index(backend, &instance, ind)
    }

    /// A pointer to the field whose name hashes to `hash`, of the instance that
    /// `instance` points to. The field is addressed by the index that the field
    /// map holds for the hash.
    pub fn get_pointer_for_field<'ctx>(
        &self,
        backend: &mut Backend<'ctx>,
        instance: &IRPointer,
        hash: u64,
    ) -> (r: PositionlessResult<IRPointer>)
        ensures
            match spec_get(self.field_to_index@, hash) {
                None => fails_with(r, IR_FIELD) && final(backend).idle(old(backend)),
                Some(k) => if k >= self.field_types@.len() {
                    fails_with(r, IR_FIELD_INDEX) && final(backend).idle(old(backend))
                } else {
                    match r {
                        Ok(p) => p.t == self.field_types@[k as int] && final(backend).built(
                            old(backend),
                            Instr::FieldPointer { ptr: instance.ptr, index: k, dest: p.ptr },
                        ),
                        Err(_) => backend_failed(r) && final(backend).idle(old(backend)),
                    }
                },
            },
    {
        let k = match self.field_to_index.get(hash) {
            Some(v) => *v,
            None => {
                return Err(PositionlessError::with_message(IR_FIELD));
            },
        };
        self.get_pointer_for_field_index(backend, instance, k)
    }

    /// As `get_pointer_for_field`, taking the instance pointer by value.
    pub fn get_pointer_for_field_noref<'ctx>(
        &self,
        backend: &mut Backend<'ctx>,
        instance: IRPointer,
        hash: u64,
    ) -> (r: PositionlessResult<IRPointer>)
        ensures
            match spec_get(self.field_to_index@, hash) {
                None => fails_with(r, IR_FIELD) && final(backend).idle(old(backend)),
                Some(k) => if k >= self.field_types@.len() {
                    fails_with(r, IR_FIELD_INDEX) && final(backend).idle(old(backend))
                } else {
                    match r {
                        Ok(p) => p.t == self.field_types@[k as int] && final(backend).built(
                            old(backend),
                            Instr::FieldPointer { ptr: instance.ptr, index: k, dest: p.ptr },
                        ),
                        Err(_) => backend_failed(r) && final(backend).idle(old(backend)),
                    }
                },
            },
    {
        self.get_pointer_for_field(backend, &instance, hash)
    }
}

} // verus!

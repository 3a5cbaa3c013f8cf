//! The registry of types, keyed by the hash of each type's name.

use vstd::prelude::*;
use std::rc::Rc;
use crate::commons::err::PositionlessResult;
use crate::commons::utils::map::{HashedMap, spec_get, spec_put};
use crate::ir::backend::Backend;
use crate::ir::types::typing::IRType;
use crate::ir::types::{BOOL_TYPE_HASH, POINTER_TYPE_HASH, SIGNED128_TYPE_HASH, SIGNED16_TYPE_HASH, SIGNED32_TYPE_HASH, SIGNED64_TYPE_HASH, SIGNED8_TYPE_HASH, STATICSTR_TYPE_HASH, UNSIGNED128_TYPE_HASH, UNSIGNED16_TYPE_HASH, UNSIGNED32_TYPE_HASH, UNSIGNED64_TYPE_HASH, UNSIGNED8_TYPE_HASH};
use crate::ir::utils::{backend_failure, share};

verus! {

/// The registry of types. The primitive types are in it from the start;
/// aggregates are added as their declarations are lowered.
pub struct IRTypeStorage {
    pub map: HashedMap<Rc<IRType>>,
}

/// Whether a registry holds every primitive type under the hash of its name.
pub open spec fn spec_holds_primitives(m: Map<u64, Rc<IRType>>) -> bool {
    &&& m.contains_key(UNSIGNED8_TYPE_HASH) && *m[UNSIGNED8_TYPE_HASH] is Unsigned8
    &&& m.contains_key(UNSIGNED16_TYPE_HASH) && *m[UNSIGNED16_TYPE_HASH] is Unsigned16
    &&& m.contains_key(UNSIGNED32_TYPE_HASH) && *m[UNSIGNED32_TYPE_HASH] is Unsigned32
    &&& m.contains_key(UNSIGNED64_TYPE_HASH) && *m[UNSIGNED64_TYPE_HASH] is Unsigned64
    &&& m.contains_key(UNSIGNED128_TYPE_HASH) && *m[UNSIGNED128_TYPE_HASH] is Unsigned128
    &&& m.contains_key(SIGNED8_TYPE_HASH) && *m[SIGNED8_TYPE_HASH] is Signed8
    &&& m.contains_key(SIGNED16_TYPE_HASH) && *m[SIGNED16_TYPE_HASH] is Signed16
    &&& m.contains_key(SIGNED32_TYPE_HASH) && *m[SIGNED32_TYPE_HASH] is Signed32
    &&& m.contains_key(SIGNED64_TYPE_HASH) && *m[SIGNED64_TYPE_HASH] is Signed64
    &&& m.contains_key(SIGNED128_TYPE_HASH) && *m[SIGNED128_TYPE_HASH] is Signed128
    &&& m.contains_key(POINTER_TYPE_HASH) && *m[POINTER_TYPE_HASH] is Pointer
    &&& m.contains_key(BOOL_TYPE_HASH) && *m[BOOL_TYPE_HASH] is Bool
    &&& m.contains_key(STATICSTR_TYPE_HASH) && *m[STATICSTR_TYPE_HASH] is Pointer
}

/// Whether a hash is the hash of a primitive type's name.
pub open spec fn spec_is_primitive_hash(h: u64) -> bool {
    h == UNSIGNED8_TYPE_HASH || h == UNSIGNED16_TYPE_HASH || h == UNSIGNED32_TYPE_HASH || h
        == UNSIGNED64_TYPE_HASH || h == UNSIGNED128_TYPE_HASH || h == SIGNED8_TYPE_HASH || h
        == SIGNED16_TYPE_HASH || h == SIGNED32_TYPE_HASH || h == SIGNED64_TYPE_HASH || h
        == SIGNED128_TYPE_HASH || h == POINTER_TYPE_HASH || h == BOOL_TYPE_HASH || h
        == STATICSTR_TYPE_HASH
}

impl IRTypeStorage {
    /// A registry that holds the primitive types and nothing else. The integer
    /// types are made in the backend: a boolean is an integer of one bit there.
    pub fn new<'ctx>(backend: &mut Backend<'ctx>) -> (r: PositionlessResult<Self>)
        ensures
            final(backend).advanced(old(backend)),
            r matches Ok(s) && spec_holds_primitives(s.map@) && forall|h: u64|
                s.map@.contains_key(h) ==> spec_is_primitive_hash(h),
    {
        let ghost start = *backend;
        let widths: [u32; 6] = [8, 16, 32, 64, 128, 1];
        let mut ints: Vec<crate::ir::backend::TypeHandle> = Vec::new();
        let mut i: usize = 0;
        while i < 6
            invariant
                i <= 6,
                ints@.len() == i,
                start == *old(backend),
                backend.advanced(&start),
                widths@ == seq![8u32, 16u32, 32u32, 64u32, 128u32, 1u32],
            decreases 6 - i,
        {
            let ghost before = *backend;
            match backend.int_type(widths[i]) {
                Ok(t) => {
                    ints.push(t);
                },
                Err(e) => {
                    return Err(backend_failure(e));
                },
            }
            i += 1;
        }
        let ghost before = *backend;
        let ptr = backend.pointer_type();
        let mut sto = IRTypeStorage { map: HashedMap::new(16) };
        sto.insert(UNSIGNED8_TYPE_HASH, IRType::Unsigned8(ints[0]));
        sto.insert(UNSIGNED16_TYPE_HASH, IRType::Unsigned16(ints[1]));
        sto.insert(UNSIGNED32_TYPE_HASH, IRType::Unsigned32(ints[2]));
        sto.insert(UNSIGNED64_TYPE_HASH, IRType::Unsigned64(ints[3]));
        sto.insert(UNSIGNED128_TYPE_HASH, IRType::Unsigned128(ints[4]));
        sto.insert(SIGNED8_TYPE_HASH, IRType::Signed8(ints[0]));
        sto.insert(SIGNED16_TYPE_HASH, IRType::Signed16(ints[1]));
        sto.insert(SIGNED32_TYPE_HASH, IRType::Signed32(ints[2]));
        sto.insert(SIGNED64_TYPE_HASH, IRType::Signed64(ints[3]));
        sto.insert(SIGNED128_TYPE_HASH, IRType::Signed128(ints[4]));
        sto.insert(POINTER_TYPE_HASH, IRType::Pointer(ptr));
        sto.insert(BOOL_TYPE_HASH, IRType::Bool(ints[5]));
        sto.insert(STATICSTR_TYPE_HASH, IRType::Pointer(ptr));
        Ok(sto)
    }

    /// Registers `t` under `hash`. What was registered under the hash before is
    /// replaced: whether the name is free is for the caller to check.
    pub fn insert(&mut self, hash: u64, t: IRType)
        ensures
            final(self).map@ == spec_put(old(self).map@, hash, Rc::new(t)),
    {
        self.map.put(hash, Rc::new(t));
    }

    /// The type registered under `hash`, if there is one.
    pub fn get(&self, hash: u64) -> (r: Option<Rc<IRType>>)
        ensures
            r == spec_get(self.map@, hash),
    {
        match self.map.get(hash) {
            Some(t) => Some(share(t)),
            None => None,
        }
    }
}

} // verus!

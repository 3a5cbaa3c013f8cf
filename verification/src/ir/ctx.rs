//! The two contexts of lowering: the global one, which lives as long as the
//! compilation, and the local one of a function body.

use vstd::prelude::*;
use std::rc::Rc;
use inkwell::context::Context;
use crate::commons::err::{PositionlessError, PositionlessResult, fails_with};
use crate::commons::utils::map::{HashedMap, spec_get, spec_put};
use crate::errors::errors::{IR_ALREADY_EXISTING_ELEM, IR_ALREADY_REGISTERED_VAR, IR_FIND_FUNCTION, IR_FIND_VARIABLE};
use crate::ir::backend::{Backend, TypeHandle};
use crate::ir::irstruct::funcs::IRFunction;
use crate::ir::irstruct::ptr::IRPointer;
use crate::ir::irstruct::staticvars::IRStaticVariable;
use crate::ir::types::storage::{IRTypeStorage, spec_holds_primitives};
use crate::ir::types::typing::IRType;
use crate::ir::types::POINTER_TYPE_HASH;
use crate::ir::utils::share;

verus! {

/// The global context: the backend, the registry of types, and the functions
/// and static variables of the module. The three share one namespace of
/// hashes.
pub struct IRContext<'ctx> {
    pub backend: Backend<'ctx>,
    pub ptr_type: TypeHandle,
    pub type_storage: IRTypeStorage,
    pub functions: HashedMap<Rc<IRFunction>>,
    pub static_vars: HashedMap<Rc<IRStaticVariable>>,
}

/// Whether a hash is claimed by a function, a static variable or a type.
pub open spec fn spec_key_taken(
    functions: Map<u64, Rc<IRFunction>>,
    static_vars: Map<u64, Rc<IRStaticVariable>>,
    types: Map<u64, Rc<IRType>>,
    hash: u64,
) -> bool {
    functions.contains_key(hash) || static_vars.contains_key(hash) || types.contains_key(hash)
}

impl<'ctx> IRContext<'ctx> {
    /// Whether `hash` is claimed in this context.
    pub open spec fn spec_is_key_taken(&self, hash: u64) -> bool {
        spec_key_taken(self.functions@, self.static_vars@, self.type_storage.map@, hash)
    }

    /// The declarations of `self` are those of `before`: functions, static
    /// variables and types are as they were, and the backend has only built.
    pub open spec fn only_built(&self, before: &Self) -> bool {
        &&& self.backend.advanced(&before.backend)
        &&& self.ptr_type == before.ptr_type
        &&& self.type_storage.map@ == before.type_storage.map@
        &&& self.functions@ == before.functions@
        &&& self.static_vars@ == before.static_vars@
    }

    /// A context on a fresh module of the code generator's context, with the
    /// primitive types registered and nothing declared.
    pub fn new(context: &'ctx Context) -> (r: PositionlessResult<Self>)
        ensures
            r matches Ok(c) && {
                &&& c.functions@ == Map::<u64, Rc<IRFunction>>::empty()
                &&& c.static_vars@ == Map::<u64, Rc<IRStaticVariable>>::empty()
                &&& spec_holds_primitives(c.type_storage.map@)
                &&& *c.type_storage.map@[POINTER_TYPE_HASH] == IRType::Pointer(c.ptr_type)
            },
    {
        let mut backend = Backend::new(context, "quickfall_module");
        let type_storage = IRTypeStorage::new(&mut backend)?;
        let ptr_type = match type_storage.get(POINTER_TYPE_HASH) {
            Some(t) => t.get_inkwell_basetype(),
            None => TypeHandle { index: 0 },
        };
        Ok(
            IRContext {
                backend,
                ptr_type,
                type_storage,
                functions: HashedMap::new(0),
                static_vars: HashedMap::new(0),
            },
        )
    }

    /// The code generator's type of a pointer.
    pub fn get_inkwell_pointertype(&self) -> (r: TypeHandle)
        ensures
            r == self.ptr_type,
    {
        self.ptr_type
    }

    /// Declares a static variable under `hash`, unless the hash is claimed.
    pub fn add_variable(&mut self, hash: u64, var: IRStaticVariable) -> (r: PositionlessResult<
        bool,
    >)
        ensures
            final(self).backend == old(self).backend,
            final(self).ptr_type == old(self).ptr_type,
            final(self).type_storage == old(self).type_storage,
            final(self).functions == old(self).functions,
            old(self).spec_is_key_taken(hash) ==> fails_with(r, IR_ALREADY_EXISTING_ELEM) && final(self).static_vars == old(self).static_vars,
            !old(self).spec_is_key_taken(hash) ==> r == Ok::<bool, PositionlessError>(true)
                && final(self).static_vars@ == spec_put(old(self).static_vars@, hash, Rc::new(var)),
    {
        if self.is_key_taken(hash) {
            return Err(PositionlessError::with_message(IR_ALREADY_EXISTING_ELEM));
        }
        self.static_vars.put(hash, Rc::new(var));
        Ok(true)
    }

    /// The static variable declared under `hash`.
    pub fn get_variable(&self, hash: u64) -> (r: PositionlessResult<Rc<IRStaticVariable>>)
        ensures
            match spec_get(self.static_vars@, hash) {
                Some(v) => r == Ok::<Rc<IRStaticVariable>, PositionlessError>(v),
                None => fails_with(r, IR_FIND_VARIABLE),
            },
    {
        match self.static_vars.get(hash) {
            Some(v) => Ok(share(v)),
            None => Err(PositionlessError::with_message(IR_FIND_VARIABLE)),
        }
    }

    /// Whether `hash` is claimed by a function, a static variable or a type.
    pub fn is_key_taken(&self, hash: u64) -> (r: bool)
        ensures
            r == self.spec_is_key_taken(hash),
    {
        self.functions.get(hash).is_some() || self.static_vars.get(hash).is_some()
            || self.type_storage.get(hash).is_some()
    }

    /// The function declared under `hash`.
    pub fn get_funtion(&self, hash: u64) -> (r: PositionlessResult<Rc<IRFunction>>)
        ensures
            match spec_get(self.functions@, hash) {
                Some(f) => r == Ok::<Rc<IRFunction>, PositionlessError>(f),
                None => fails_with(r, IR_FIND_FUNCTION),
            },
    {
        match self.functions.get(hash) {
            Some(v) => Ok(share(v)),
            None => Err(PositionlessError::with_message(IR_FIND_FUNCTION)),
        }
    }

    /// Declares a function under `hash`, unless the hash is claimed.
    pub fn add_function(&mut self, hash: u64, func: IRFunction) -> (r: PositionlessResult<bool>)
        ensures
            final(self).backend == old(self).backend,
            final(self).ptr_type == old(self).ptr_type,
            final(self).type_storage == old(self).type_storage,
            final(self).static_vars == old(self).static_vars,
            old(self).spec_is_key_taken(hash) ==> fails_with(r, IR_ALREADY_EXISTING_ELEM) && final(self).functions == old(self).functions,
            !old(self).spec_is_key_taken(hash) ==> r == Ok::<bool, PositionlessError>(true)
                && final(self).functions@ == spec_put(old(self).functions@, hash, Rc::new(func)),
    {
        if self.is_key_taken(hash) {
            return Err(PositionlessError::with_message(IR_ALREADY_EXISTING_ELEM));
        }
        self.functions.put(hash, Rc::new(func));
        Ok(true)
    }
}

/// Namespace exclusivity: once a hash is claimed by a function, by a static
/// variable or by a type, it stays claimed whatever is declared under other
/// hashes or attempted under the same one, so a second declaration under it
/// fails.
pub proof fn law_namespace_exclusive(
    functions: Map<u64, Rc<IRFunction>>,
    static_vars: Map<u64, Rc<IRStaticVariable>>,
    types: Map<u64, Rc<IRType>>,
    hash: u64,
    other: u64,
    func: Rc<IRFunction>,
    var: Rc<IRStaticVariable>,
    ty: Rc<IRType>,
)
    ensures
        spec_key_taken(spec_put(functions, hash, func), static_vars, types, hash),
        spec_key_taken(functions, spec_put(static_vars, hash, var), types, hash),
        spec_key_taken(functions, static_vars, spec_put(types, hash, ty), hash),
        spec_key_taken(functions, static_vars, types, hash) ==> {
            &&& spec_key_taken(spec_put(functions, other, func), static_vars, types, hash)
            &&& spec_key_taken(functions, spec_put(static_vars, other, var), types, hash)
            &&& spec_key_taken(functions, static_vars, spec_put(types, other, ty), hash)
        },
{
}

/// A variable of a function body: where it lives and at which depth of nested
/// bodies it was bound.
pub struct LocalIRVariable {
    pub ptr: IRPointer,
    pub depth: i64,
}

/// The local context: the variables of one function body, in one flat table,
/// and the current depth of nested bodies. Depth zero is the body of the
/// function itself.
pub struct IRLocalContext {
    pub vars: HashedMap<LocalIRVariable>,
    pub current_depth: i64,
}

/// What is left of the variables when a nested body ends and the depth falls
/// to `depth`: those that were bound at that depth or above it.
pub open spec fn spec_pruned(vars: Map<u64, LocalIRVariable>, depth: int) -> Map<
    u64,
    LocalIRVariable,
> {
    Map::new(|h: u64| vars.contains_key(h) && vars[h].depth <= depth, |h: u64| vars[h])
}

/// `after` holds what `before` holds, and what it holds besides was bound at
/// `depth`.
pub open spec fn spec_extends(
    after: Map<u64, LocalIRVariable>,
    before: Map<u64, LocalIRVariable>,
    depth: int,
) -> bool {
    &&& forall|h: u64| #[trigger]
        before.contains_key(h) ==> after.contains_key(h) && after[h] == before[h]
    &&& forall|h: u64| #[trigger]
        after.contains_key(h) && !before.contains_key(h) ==> after[h].depth == depth
}

/// What was bound at a depth is gone when the depth falls below it, and what
/// was there before is all that is left.
pub proof fn lemma_pruned_extension(
    after: Map<u64, LocalIRVariable>,
    before: Map<u64, LocalIRVariable>,
    depth: int,
)
    requires
        spec_extends(after, before, depth),
    ensures
        spec_pruned(after, depth - 1) == spec_pruned(before, depth - 1),
{
    assert forall|h: u64| #[trigger] spec_pruned(after, depth - 1).contains_key(h) <==> spec_pruned(
        before,
        depth - 1,
    ).contains_key(h) by {
        if after.contains_key(h) && !before.contains_key(h) {
            assert(after[h].depth == depth);
        }
        if before.contains_key(h) {
            assert(after.contains_key(h) && after[h] == before[h]);
        }
    }
    assert(spec_pruned(after, depth - 1) =~= spec_pruned(before, depth - 1));
}

/// Pruning to the current depth drops nothing from a scope in which no
/// variable is bound deeper than the current depth.
pub proof fn lemma_pruned_identity(vars: Map<u64, LocalIRVariable>, depth: int)
    requires
        forall|h: u64| #[trigger] vars.contains_key(h) ==> vars[h].depth <= depth,
    ensures
        spec_pruned(vars, depth) == vars,
{
    assert(spec_pruned(vars, depth) =~= vars);
}

/// Extensions compose.
pub proof fn lemma_extends_trans(
    a: Map<u64, LocalIRVariable>,
    b: Map<u64, LocalIRVariable>,
    c: Map<u64, LocalIRVariable>,
    depth: int,
)
    requires
        spec_extends(b, a, depth),
        spec_extends(c, b, depth),
    ensures
        spec_extends(c, a, depth),
{
    assert forall|h: u64| #[trigger] a.contains_key(h) implies c.contains_key(h) && c[h]
        == a[h] by {
        assert(b.contains_key(h));
    }
    assert forall|h: u64| #[trigger] c.contains_key(h) && !a.contains_key(h) implies c[h].depth
        == depth by {
        if b.contains_key(h) {
            assert(c[h] == b[h]);
        }
    }
}

impl IRLocalContext {
    /// No variable is bound deeper than the current depth: none outlives the
    /// body in which it was bound.
    pub open spec fn spec_wf(&self) -> bool {
        forall|h: u64| #[trigger]
            self.vars@.contains_key(h) ==> self.vars@[h].depth <= self.current_depth
    }

    pub fn new() -> (r: Self)
        ensures
            r.vars@ == Map::<u64, LocalIRVariable>::empty(),
            r.current_depth == 0,
            r.spec_wf(),
    {
        IRLocalContext { vars: HashedMap::new(0), current_depth: 0 }
    }

    /// Binds a variable at the current depth. The hash must not be bound
    /// anywhere in the function, at whatever depth.
    pub fn add_variable(&mut self, hash: u64, var: IRPointer) -> (r: PositionlessResult<bool>)
        ensures
            final(self).current_depth == old(self).current_depth,
            old(self).spec_wf() ==> final(self).spec_wf(),
            spec_extends(final(self).vars@, old(self).vars@, old(self).current_depth as int),
            old(self).vars@.contains_key(hash) ==> fails_with(r, IR_ALREADY_REGISTERED_VAR)
                && final(self).vars == old(self).vars,
            !old(self).vars@.contains_key(hash) ==> r == Ok::<bool, PositionlessError>(true)
                && final(self).vars@ == spec_put(
                old(self).vars@,
                hash,
                LocalIRVariable { ptr: var, depth: old(self).current_depth },
            ),
    {
        if self.vars.get(hash).is_some() {
            return Err(PositionlessError::with_message(IR_ALREADY_REGISTERED_VAR));
        }
        self.vars.put(hash, LocalIRVariable { ptr: var, depth: self.current_depth });
        Ok(true)
    }

    /// The location of the variable bound under `hash`, whatever its depth.
    pub fn get_variable(&self, hash: u64) -> (r: PositionlessResult<&IRPointer>)
        ensures
            match spec_get(self.vars@, hash) {
                Some(v) => r is Ok && *r->Ok_0 == v.ptr,
                None => fails_with(r, IR_FIND_VARIABLE),
            },
    {
        match self.vars.get(hash) {
            Some(v) => Ok(&v.ptr),
            None => Err(PositionlessError::with_message(IR_FIND_VARIABLE)),
        }
    }

    /// Enters a nested body.
    pub fn increment_body_depth(&mut self)
        requires
            old(self).current_depth < i64::MAX,
        ensures
            final(self).current_depth == old(self).current_depth + 1,
            final(self).vars == old(self).vars,
            old(self).spec_wf() ==> final(self).spec_wf(),
    {
        self.current_depth = self.current_depth + 1;
    }

    /// Leaves the current nested body: the depth falls by one, and every
    /// variable that was bound deeper than the new depth is dropped.
    pub fn end_nested_body_depth(&mut self)
        requires
            old(self).current_depth > i64::MIN,
        ensures
            final(self).current_depth == old(self).current_depth - 1,
            final(self).vars@ == spec_pruned(old(self).vars@, old(self).current_depth - 1),
            final(self).spec_wf(),
    {
        self.current_depth = self.current_depth - 1;
        let depth = self.current_depth;
        let ghost before = self.vars@;
        let mut doomed: Vec<u64> = Vec::new();
        {
            let entries = self.vars.entries();
            let mut i: usize = 0;
            while i < entries.len()
                invariant
                    i <= entries@.len(),
                    self.vars@ == before,
                    forall|n: int|
                        0 <= n < entries@.len() ==> before.contains_key((#[trigger] entries@[n]).0)
                            && before[entries@[n].0] == entries@[n].1,
                    forall|j: int|
                        0 <= j < doomed@.len() ==> before.contains_key(#[trigger] doomed@[j])
                            && before[doomed@[j]].depth > depth,
                    forall|n: int|
                        0 <= n < i && (#[trigger] entries@[n]).1.depth > depth ==> exists|j: int|
                            0 <= j < doomed@.len() && doomed@[j] == entries@[n].0,
                decreases entries@.len() - i,
            {
                let entry = entries[i];
                if entry.1.depth > depth {
                    let ghost prev = doomed@;
                    doomed.push(entry.0);
                    proof {
                        assert forall|n: int|
                            0 <= n < i + 1 && (#[trigger] entries@[n]).1.depth
                                > depth implies exists|j: int|
                            0 <= j < doomed@.len() && doomed@[j] == entries@[n].0 by {
                            if n < i {
                                let j = choose|j: int|
                                    0 <= j < prev.len() && prev[j] == entries@[n].0;
                                assert(doomed@[j] == entries@[n].0);
                            } else {
                                assert(doomed@[prev.len() as int] == entries@[n].0);
                            }
                        }
                    }
                }
                i += 1;
            }
            proof {
                assert forall|h: u64| before.contains_key(h) && before[h].depth > depth implies exists|
                    j: int,
                | 0 <= j < doomed@.len() && doomed@[j] == h by {
                    let n = choose|n: int| 0 <= n < entries@.len() && entries@[n].0 == h;
                    assert(entries@[n].1.depth > depth);
                }
            }
        }
        let mut k: usize = 0;
        while k < doomed.len()
            invariant
                k <= doomed@.len(),
                self.current_depth == depth,
                forall|j: int|
                    0 <= j < doomed@.len() ==> before.contains_key(#[trigger] doomed@[j])
                        && before[doomed@[j]].depth > depth,
                forall|h: u64|
                    before.contains_key(h) && before[h].depth > depth ==> exists|j: int|
                        0 <= j < doomed@.len() && doomed@[j] == h,
                forall|h: u64|
                    self.vars@.contains_key(h) <==> before.contains_key(h) && !exists|j: int|
                        0 <= j < k && doomed@[j] == h,
                forall|h: u64| self.vars@.contains_key(h) ==> self.vars@[h] == before[h],
            decreases doomed@.len() - k,
        {
            let ghost prev = self.vars@;
            self.vars.erase(doomed[k]);
            proof {
                assert forall|h: u64|
                    self.vars@.contains_key(h) <==> before.contains_key(h) && !exists|j: int|
                        0 <= j < k + 1 && doomed@[j] == h by {
                    if h == doomed@[k as int] {
                        assert(0 <= k < k + 1 && doomed@[k as int] == h);
                    } else {
                        if exists|j: int| 0 <= j < k + 1 && doomed@[j] == h {
                            let j = choose|j: int| 0 <= j < k + 1 && doomed@[j] == h;
                            assert(0 <= j < k && doomed@[j] == h);
                        }
                    }
                }
            }
            k += 1;
        }
        proof {
            assert forall|h: u64|
                self.vars@.contains_key(h) <==> spec_pruned(before, depth as int).contains_key(
                    h,
                ) by {
                if before.contains_key(h) && before[h].depth > depth {
                    let j = choose|j: int| 0 <= j < doomed@.len() && doomed@[j] == h;
                    assert(0 <= j < k && doomed@[j] == h);
                }
                if exists|j: int| 0 <= j < k && doomed@[j] == h {
                    let j = choose|j: int| 0 <= j < k && doomed@[j] == h;
                    assert(before[doomed@[j]].depth > depth);
                }
            }
            assert(self.vars@ =~= spec_pruned(before, depth as int));
        }
    }
}

/// What holds of the local context whatever came of lowering: the depth has
/// not fallen, and what was bound before is bound as it was.
pub open spec fn spec_kept(after: IRLocalContext, before: IRLocalContext) -> bool {
    &&& after.current_depth >= before.current_depth
    &&& forall|h: u64| #[trigger]
        before.vars@.contains_key(h) ==> after.vars@.contains_key(h) && after.vars@[h]
            == before.vars@[h]
}

/// Scoping: a variable bound at depth `d` is still there after a nested body
/// ends as long as the depth does not fall below `d`, and is gone once it does.
pub proof fn law_scoping(vars: Map<u64, LocalIRVariable>, hash: u64, depth: int)
    requires
        vars.contains_key(hash),
    ensures
        depth - 1 >= vars[hash].depth ==> spec_get(spec_pruned(vars, depth - 1), hash) == Some(
            vars[hash],
        ),
        depth - 1 < vars[hash].depth ==> spec_get(spec_pruned(vars, depth - 1), hash).is_none(),
{
}

/// Pruning is exact: it drops nothing that was bound at the new depth or
/// above, keeps nothing that was bound deeper, and adds nothing.
pub proof fn law_pruning_exact(vars: Map<u64, LocalIRVariable>, depth: int, hash: u64)
    ensures
        spec_pruned(vars, depth).contains_key(hash) <==> vars.contains_key(hash) && vars[hash].depth
            <= depth,
        spec_pruned(vars, depth).contains_key(hash) ==> spec_pruned(vars, depth)[hash]
            == vars[hash],
{
}

} // verus!

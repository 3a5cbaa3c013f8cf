//! What a parsed file holds: its top-level declarations by name, and the order
//! in which they stood.

use vstd::prelude::*;
use crate::commons::utils::map::{HashedMap, spec_put};
use crate::parser::ast::tree::ASTTreeNode;
use crate::utils::hash::{spec_name_hash, utils_get_hash};

verus! {

/// The declarations of a file. They are kept under the hash of their name, as
/// every later stage knows them; `iter_order` holds the names in the order of
/// the file.
#[derive(Debug)]
pub struct ParserCtx {
    pub map: HashedMap<Box<ASTTreeNode>>,
    pub iter_order: Vec<String>,
}

impl ParserCtx {
    /// Every name of the order has its declaration in the map, and every
    /// declaration may stand at the top level.
    pub open spec fn spec_wf(&self) -> bool {
        &&& forall|i: int|
            0 <= i < self.iter_order@.len() ==> self.map@.contains_key(
                spec_name_hash((#[trigger] self.iter_order@[i])@),
            )
        &&& forall|h: u64| #[trigger]
            self.map@.contains_key(h) ==> self.map@[h].spec_is_tree_permissible()
    }

    pub fn new() -> (r: Self)
        ensures
            r.map@ == Map::<u64, Box<ASTTreeNode>>::empty(),
            r.iter_order@.len() == 0,
            r.spec_wf(),
    {
        ParserCtx { map: HashedMap::new(0), iter_order: Vec::new() }
    }

    /// Adds a declaration under its name; a declaration of the same name is
    /// replaced. A node that may not stand at the top level is refused.
    pub fn insert(&mut self, name: String, node: Box<ASTTreeNode>) -> (r: bool)
        ensures
            r == node.spec_is_tree_permissible(),
            !r ==> *final(self) == *old(self),
            r ==> final(self).map@ == spec_put(old(self).map@, spec_name_hash(name@), node)
                && final(self).iter_order@ == old(self).iter_order@.push(name),
            old(self).spec_wf() ==> final(self).spec_wf(),
    {
        if !node.is_tree_permissible() {
            return false;
        }
        let hash = utils_get_hash(name.as_str());
        self.iter_order.push(name);
        self.map.put(hash, node);
        true
    }

    /// The declaration under a name, if there is one.
    pub fn get(&self, name: &str) -> (r: Option<&Box<ASTTreeNode>>)
        ensures
            match r {
                Some(node) => self.map@.contains_key(spec_name_hash(name@)) && *node
                    == self.map@[spec_name_hash(name@)],
                None => !self.map@.contains_key(spec_name_hash(name@)),
            },
    {
        self.map.get(utils_get_hash(name))
    }
}

} // verus!

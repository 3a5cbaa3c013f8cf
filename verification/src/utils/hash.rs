//! Identifier hashing. Every name of the language is known to the later stages by
//! the 64-bit hash of its text alone; two names that collide are one name to them.

use vstd::prelude::*;
use std::hash::{DefaultHasher, Hash, Hasher};

verus! {

pub type TypeHash = u64;

/// The hash that the standard library's default hasher, freshly made, gives to a
/// text. It depends on the text alone.
pub uninterp spec fn spec_name_hash(text: Seq<char>) -> u64;

/// Feeds `val` to a fresh `std::hash::DefaultHasher` and returns what it
/// finishes with. A fresh default hasher has fixed keys, so the result is the
/// same for the same text wherever it is computed.
#[verifier::external_body]
pub(crate) fn utils_get_hash(val: &str) -> (r: TypeHash)
    ensures
        r == spec_name_hash(val@),
{
    let mut hasher = DefaultHasher::new();
    val.hash(&mut hasher);
    hasher.finish()
}

/// A name bundled with its cached hash, for values that are mostly compared by
/// hash. `new` and `change` keep the hash in step with the name.
#[derive(Debug, Clone, PartialEq)]
pub struct WithHash {
    pub val: String,
    pub hash: u64,
}

impl WithHash {
    /// The cached hash is the hash of the name.
    pub open spec fn in_step(&self) -> bool {
        self.hash == spec_name_hash(self.val@)
    }

    pub fn new(val: String) -> (r: Self)
        ensures
            r.val == val,
            r.in_step(),
    {
        let hash = utils_get_hash(val.as_str());
        WithHash { val, hash }
    }

    /// Replaces the name and computes the hash anew.
    pub fn change(&mut self, new: String)
        ensures
            final(self).val == new,
            final(self).in_step(),
    {
        self.val = new;
        self.hash = utils_get_hash(self.val.as_str());
    }

    /// Whether `val` hashes to the cached hash.
    pub fn compare(&self, val: String) -> (r: bool)
        ensures
            r == (self.hash == spec_name_hash(val@)),
    {
        let hash = utils_get_hash(val.as_str());
        self.hash == hash
    }

    /// Whether `hash` is the cached hash.
    pub fn compare_hash(&self, hash: TypeHash) -> (r: bool)
        ensures
            r == (self.hash == hash),
    {
        self.hash == hash
    }

    /// A copy of the name with the same cached hash.
    pub fn duplicate(&self) -> (r: Self)
        ensures
            r.val@ == self.val@,
            r.hash == self.hash,
    {
        WithHash { val: self.val.clone(), hash: self.hash }
    }
}

/// A name that is in step compares equal to its own text.
pub proof fn law_compare_own_text(w: WithHash, text: String)
    requires
        w.in_step(),
        text@ == w.val@,
    ensures
        w.hash == spec_name_hash(text@),
{
}

} // verus!

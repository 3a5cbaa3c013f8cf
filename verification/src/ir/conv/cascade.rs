//! The block layout of an `if` with its `else if` and `else` branches.
//!
//! The branches are lowered as a flat cascade, not as a tree of nested ifs:
//! every condition has a block in which it is tested and a block for its body,
//! all bodies jump to one exit block, and a condition that is false leads to
//! the test of the next one. The layout is decided before anything is built,
//! from the number of conditions alone.

use vstd::prelude::*;
use crate::ir::backend::BlockHandle;

verus! {

/// The layout of a cascade: the handle of its first block, the number of its
/// conditions (`if` and each `else if`), and whether it ends in an `else`.
#[derive(Debug, Clone, Copy, PartialEq, Eq, Structural)]
pub struct CascadePlan {
    pub first: usize,
    pub conditions: usize,
    pub has_else: bool,
}

/// The first condition that holds, if one does.
pub open spec fn spec_first_true(conds: Seq<bool>) -> Option<int>
    decreases conds.len(),
{
    if conds.len() == 0 {
        None
    } else if conds[0] {
        Some(0)
    } else {
        match spec_first_true(conds.subrange(1, conds.len() as int)) {
            Some(i) => Some(i + 1),
            None => None,
        }
    }
}

impl CascadePlan {
    /// The number of blocks of the cascade: an exit, a body for each condition,
    /// a test for each condition but the first, and a body for the `else`.
    pub open spec fn spec_block_count(&self) -> nat {
        (2 * self.conditions + if self.has_else {
            1nat
        } else {
            0nat
        }) as nat
    }

    pub open spec fn spec_wf(&self) -> bool {
        self.conditions >= 1 && self.first + self.spec_block_count() <= usize::MAX
    }

    /// The block that every body jumps to.
    pub open spec fn spec_exit(&self) -> BlockHandle {
        BlockHandle { index: self.first }
    }

    /// The body of condition `i`.
    pub open spec fn spec_then_block(&self, i: int) -> BlockHandle {
        BlockHandle { index: (self.first + 1 + 2 * i) as usize }
    }

    /// The block in which condition `i` is tested, for every condition but the
    /// first.
    pub open spec fn spec_later_test(&self, i: int) -> BlockHandle {
        BlockHandle { index: (self.first + 2 * i) as usize }
    }

    /// The block in which condition `i` is tested. The first condition is tested
    /// in `entry`, the block that the cascade is entered from.
    pub open spec fn spec_test_block(&self, entry: BlockHandle, i: int) -> BlockHandle {
        if i == 0 {
            entry
        } else {
            self.spec_later_test(i)
        }
    }

    /// The body of the `else`.
    pub open spec fn spec_else_block(&self) -> BlockHandle {
        BlockHandle { index: (self.first + 2 * self.conditions) as usize }
    }

    /// Where control goes when condition `i` is false: to the test of the next
    /// condition, to the `else` after the last one, to the exit if there is no
    /// `else`.
    pub open spec fn spec_else_target(&self, i: int) -> BlockHandle {
        if i + 1 < self.conditions {
            self.spec_later_test(i + 1)
        } else if self.has_else {
            self.spec_else_block()
        } else {
            self.spec_exit()
        }
    }

    /// Whether `block` is the block in which condition `i` is tested.
    pub open spec fn spec_tests(&self, entry: BlockHandle, block: BlockHandle, i: int) -> bool {
        0 <= i < self.conditions && block == self.spec_test_block(entry, i)
    }

    /// The block that control leaves `block` for, when the conditions have the
    /// truth values `conds`: a block that tests a condition is left through its
    /// conditional branch, every other block is where the walk stays.
    pub open spec fn spec_successor(
        &self,
        entry: BlockHandle,
        conds: Seq<bool>,
        block: BlockHandle,
    ) -> BlockHandle {
        if exists|i: int| self.spec_tests(entry, block, i) {
            let i = choose|i: int| self.spec_tests(entry, block, i);
            if conds[i] {
                self.spec_then_block(i)
            } else {
                self.spec_else_target(i)
            }
        } else {
            block
        }
    }

    /// The block that control is in after `steps` branches, starting from
    /// `entry`.
    pub open spec fn spec_walk(&self, entry: BlockHandle, conds: Seq<bool>, steps: nat) -> BlockHandle
        decreases steps,
    {
        if steps == 0 {
            entry
        } else {
            self.spec_successor(entry, conds, self.spec_walk(entry, conds, (steps - 1) as nat))
        }
    }

    /// The body that is selected: that of the first condition that holds, the
    /// `else` if none holds, the exit if none holds and there is no `else`.
    pub open spec fn spec_selected(&self, conds: Seq<bool>) -> BlockHandle {
        match spec_first_true(conds) {
            Some(i) => self.spec_then_block(i),
            None => if self.has_else {
                self.spec_else_block()
            } else {
                self.spec_exit()
            },
        }
    }

    /// The layout for `conditions` conditions whose first block will be the
    /// block with index `first`; nothing if the handles would not fit.
    pub fn new(first: usize, conditions: usize, has_else: bool) -> (r: Option<Self>)
        ensures
            match r {
                Some(p) => p.spec_wf() && p.first == first && p.conditions == conditions
                    && p.has_else == has_else,
                None => !(CascadePlan { first, conditions, has_else }).spec_wf(),
            },
    {
        if conditions < 1 || conditions > (usize::MAX - 1) / 2 {
            return None;
        }
        let count: usize = 2 * conditions + if has_else {
            1
        } else {
            0
        };
        if first > usize::MAX - count {
            return None;
        }
        Some(CascadePlan { first, conditions, has_else })
    }

    pub fn block_count(&self) -> (r: usize)
        requires
            self.spec_wf(),
        ensures
            r == self.spec_block_count(),
    {
        2 * self.conditions + if self.has_else {
            1
        } else {
            0
        }
    }

    pub fn exit(&self) -> (r: BlockHandle)
        ensures
            r == self.spec_exit(),
    {
        BlockHandle { index: self.first }
    }

    pub fn then_block(&self, i: usize) -> (r: BlockHandle)
        requires
            self.spec_wf(),
            i < self.conditions,
        ensures
            r == self.spec_then_block(i as int),
    {
        BlockHandle { index: self.first + 1 + 2 * i }
    }

    pub fn else_block(&self) -> (r: BlockHandle)
        requires
            self.spec_wf(),
            self.has_else,
        ensures
            r == self.spec_else_block(),
    {
        BlockHandle { index: self.first + 2 * self.conditions }
    }

    pub fn else_target(&self, i: usize) -> (r: BlockHandle)
        requires
            self.spec_wf(),
            i < self.conditions,
        ensures
            r == self.spec_else_target(i as int),
    {
        if i + 1 < self.conditions {
            BlockHandle { index: self.first + 2 * (i + 1) }
        } else if self.has_else {
            self.else_block()
        } else {
            self.exit()
        }
    }
}

/// The first condition that holds is one that holds, and none before it does.
pub proof fn lemma_first_true(conds: Seq<bool>)
    ensures
        match spec_first_true(conds) {
            Some(i) => 0 <= i < conds.len() && conds[i] && forall|j: int| 0 <= j < i ==> !conds[j],
            None => forall|j: int| 0 <= j < conds.len() ==> !conds[j],
        },
    decreases conds.len(),
{
    if conds.len() > 0 && !conds[0] {
        let rest = conds.subrange(1, conds.len() as int);
        lemma_first_true(rest);
        match spec_first_true(rest) {
            Some(i) => {
                assert forall|j: int| 0 <= j < i + 1 implies !conds[j] by {
                    if j > 0 {
                        assert(rest[j - 1] == conds[j]);
                    }
                }
                assert(rest[i] == conds[i + 1]);
            },
            None => {
                assert forall|j: int| 0 <= j < conds.len() implies !conds[j] by {
                    if j > 0 {
                        assert(rest[j - 1] == conds[j]);
                    }
                }
            },
        }
    }
}

/// A block tests one condition at most.
proof fn lemma_tests_unique(plan: CascadePlan, entry: BlockHandle, block: BlockHandle, i: int)
    requires
        plan.spec_wf(),
        entry.index < plan.first,
        plan.spec_tests(entry, block, i),
    ensures
        forall|j: int| plan.spec_tests(entry, block, j) ==> j == i,
{
}

/// While every condition so far is false, control is in the test of the next.
proof fn lemma_walk_tests(plan: CascadePlan, entry: BlockHandle, conds: Seq<bool>, k: nat)
    requires
        plan.spec_wf(),
        entry.index < plan.first,
        conds.len() == plan.conditions,
        k < plan.conditions,
        forall|j: int| 0 <= j < k ==> !conds[j],
    ensures
        plan.spec_walk(entry, conds, k) == plan.spec_test_block(entry, k as int),
    decreases k,
{
    if k > 0 {
        lemma_walk_tests(plan, entry, conds, (k - 1) as nat);
        let block = plan.spec_test_block(entry, k - 1);
        assert(plan.spec_tests(entry, block, k - 1));
        lemma_tests_unique(plan, entry, block, k - 1);
        let i = choose|i: int| plan.spec_tests(entry, block, i);
        assert(i == k - 1);
    }
}

/// A body, the `else` and the exit are blocks in which nothing is tested: the
/// walk stays there.
proof fn lemma_body_is_final(plan: CascadePlan, entry: BlockHandle, conds: Seq<bool>, i: int)
    requires
        plan.spec_wf(),
        entry.index < plan.first,
        0 <= i < plan.conditions,
    ensures
        plan.spec_successor(entry, conds, plan.spec_then_block(i)) == plan.spec_then_block(i),
        plan.spec_successor(entry, conds, plan.spec_exit()) == plan.spec_exit(),
        plan.has_else ==> plan.spec_successor(entry, conds, plan.spec_else_block())
            == plan.spec_else_block(),
{
    assert forall|j: int| !plan.spec_tests(entry, plan.spec_then_block(i), j) by {}
    assert forall|j: int| !plan.spec_tests(entry, plan.spec_exit(), j) by {}
    if plan.has_else {
        assert forall|j: int| !plan.spec_tests(entry, plan.spec_else_block(), j) by {}
    }
}

/// Once control is in the selected body it stays there.
proof fn lemma_walk_stays(
    plan: CascadePlan,
    entry: BlockHandle,
    conds: Seq<bool>,
    from: nat,
    steps: nat,
)
    requires
        plan.spec_wf(),
        entry.index < plan.first,
        conds.len() == plan.conditions,
        from <= steps,
        plan.spec_walk(entry, conds, from) == plan.spec_selected(conds),
    ensures
        plan.spec_walk(entry, conds, steps) == plan.spec_selected(conds),
    decreases steps,
{
    if steps > from {
        lemma_walk_stays(plan, entry, conds, from, (steps - 1) as nat);
        lemma_first_true(conds);
        match spec_first_true(conds) {
            Some(i) => {
                lemma_body_is_final(plan, entry, conds, i);
            },
            None => {
                lemma_body_is_final(plan, entry, conds, 0);
            },
        }
    }
}

/// If, else-if, else: whatever the conditions evaluate to, following the
/// branches of the cascade from its entry leads through the tests in source
/// order, as long as the conditions are false, into the body of the first
/// condition that is true, or into the `else` (the exit, where there is none)
/// if no condition is true, and into no other body: up to the first true
/// condition control is in a test, and from then on in the selected body.
pub proof fn law_cascade_selects_first_true(
    plan: CascadePlan,
    entry: BlockHandle,
    conds: Seq<bool>,
    steps: nat,
)
    requires
        plan.spec_wf(),
        entry.index < plan.first,
        conds.len() == plan.conditions,
    ensures
        match spec_first_true(conds) {
            Some(i) => if steps <= i {
                plan.spec_walk(entry, conds, steps) == plan.spec_test_block(entry, steps as int)
            } else {
                plan.spec_walk(entry, conds, steps) == plan.spec_then_block(i)
            },
            None => if steps < plan.conditions {
                plan.spec_walk(entry, conds, steps) == plan.spec_test_block(entry, steps as int)
            } else {
                plan.spec_walk(entry, conds, steps) == plan.spec_selected(conds)
            },
        },
{
    lemma_first_true(conds);
    match spec_first_true(conds) {
        Some(i) => {
            if steps <= i {
                lemma_walk_tests(plan, entry, conds, steps);
            } else {
                lemma_walk_tests(plan, entry, conds, i as nat);
                let block = plan.spec_test_block(entry, i);
                assert(plan.spec_tests(entry, block, i));
                lemma_tests_unique(plan, entry, block, i);
                let c = choose|c: int| plan.spec_tests(entry, block, c);
                assert(c == i);
                assert(plan.spec_walk(entry, conds, (i + 1) as nat) == plan.spec_then_block(i));
                lemma_walk_stays(plan, entry, conds, (i + 1) as nat, steps);
            }
        },
        None => {
            let n = plan.conditions as nat;
            if steps < n {
                lemma_walk_tests(plan, entry, conds, steps);
            } else {
                lemma_walk_tests(plan, entry, conds, (n - 1) as nat);
                let block = plan.spec_test_block(entry, n - 1);
                assert(plan.spec_tests(entry, block, n - 1));
                lemma_tests_unique(plan, entry, block, n - 1);
                let c = choose|c: int| plan.spec_tests(entry, block, c);
                assert(c == n - 1);
                assert(plan.spec_walk(entry, conds, n) == plan.spec_selected(conds));
                lemma_walk_stays(plan, entry, conds, n, steps);
            }
        },
    }
}

} // verus!

//! Lowering of control flow: the `if` cascade and the `for` loop.

use vstd::prelude::*;
use crate::commons::err::{PositionlessError, PositionlessResult, fails_with};
use crate::commons::utils::map::spec_get;
use crate::errors::errors::{BACKEND_HANDLE, INKWELL_FUNC_FAILED, IR_BODY_MEMBER, IR_FIND_VARIABLE, IR_MALFORMED_BRANCH, IR_NESTING_DEPTH, IR_NODE_KIND, IR_OBTAIN_COND, IR_VALUE_NODE};
use crate::ir::backend::{BlockHandle, FunctionHandle, Instr, Issued, ValueHandle};
use crate::ir::conv::cascade::CascadePlan;
use crate::ir::conv::func::{parse_ir_body, parse_ir_function_body_member, spec_is_body_member, spec_same_signature};
use crate::ir::conv::judged::{spec_chain_refusal, spec_condition_refusal, spec_for_outcome, spec_if_refusal, spec_nested_refusal, spec_passed, spec_static_scope};
use crate::ir::conv::lowered::spec_env;
use crate::ir::verdict::spec_settled;
use crate::ir::conv::members::{Scope, spec_appended, spec_branched, spec_chain_lowers, spec_deeper, spec_for_lowers, spec_grown, spec_if_lowers, spec_jumped, spec_members_lower, spec_nested_lowers, spec_rest_lowers, spec_scope, spec_tested};
use crate::ir::conv::val::{parse_ir_value, spec_is_value_node};
use crate::ir::ctx::{spec_kept, IRContext, lemma_extends_trans, lemma_pruned_extension, lemma_pruned_identity};
use crate::ir::rules::{Recorded, spec_obtains, spec_reached, spec_recorded, spec_step};
use crate::ir::irstruct::funcs::IRFunction;
use crate::ir::irstruct::staticvars::{IRStaticVariable, StaticContent};
use crate::ir::utils::backend_failure;
use crate::parser::ast::tree::ASTTreeNode;

verus! {

/// The number of conditions from a branch on, to the end of its chain.
pub open spec fn spec_chain_conditions(node: ASTTreeNode) -> nat
    decreases node,
{
    match node {
        ASTTreeNode::IfStatement { cond: _, body: _, else_statement, depth: _ } => 1
            + match else_statement {
            Some(next) => spec_chain_conditions(*next),
            None => 0,
        },
        ASTTreeNode::IfElseStatement { cond: Some(_), body: _, else_statement } => 1
            + match else_statement {
            Some(next) => spec_chain_conditions(*next),
            None => 0,
        },
        _ => 0,
    }
}

/// Whether the chain that a branch starts ends in an unconditional branch.
pub open spec fn spec_chain_has_else(node: ASTTreeNode) -> bool
    decreases node,
{
    match node {
        ASTTreeNode::IfStatement { cond: _, body: _, else_statement, depth: _ } => match else_statement {
            Some(next) => spec_chain_has_else(*next),
            None => false,
        },
        ASTTreeNode::IfElseStatement { cond: Some(_), body: _, else_statement } => match else_statement {
            Some(next) => spec_chain_has_else(*next),
            None => false,
        },
        ASTTreeNode::IfElseStatement { cond: None, body: _, else_statement: _ } => true,
        ASTTreeNode::ElseStatement { body: _ } => true,
        _ => false,
    }
}

/// Whether a node and what hangs on it is a chain of branches: conditional
/// ones, and at most one unconditional one, at the end.
pub open spec fn spec_chain_wf(node: ASTTreeNode) -> bool
    decreases node,
{
    match node {
        ASTTreeNode::IfStatement { cond: _, body: _, else_statement, depth: _ } => match else_statement {
            Some(next) => !(*next is IfStatement) && spec_chain_wf(*next),
            None => true,
        },
        ASTTreeNode::IfElseStatement { cond: Some(_), body: _, else_statement } => match else_statement {
            Some(next) => !(*next is IfStatement) && spec_chain_wf(*next),
            None => true,
        },
        ASTTreeNode::IfElseStatement { cond: None, body: _, else_statement: _ } => true,
        ASTTreeNode::ElseStatement { body: _ } => true,
        _ => false,
    }
}

/// Counts the conditions of a chain and looks for its `else`; nothing if the
/// chain is malformed or too long to count.
fn chain_shape(node: &ASTTreeNode) -> (r: Option<(usize, bool)>)
    ensures
        r matches Some((n, e)) ==> spec_chain_wf(*node) && n == spec_chain_conditions(*node) && e
            == spec_chain_has_else(*node),
        r is None ==> !spec_chain_wf(*node) || spec_chain_conditions(*node) >= usize::MAX,
    decreases node,
{
    let next = match node {
        ASTTreeNode::IfStatement { cond: _, body: _, else_statement, depth: _ } => else_statement,
        ASTTreeNode::IfElseStatement { cond: Some(_), body: _, else_statement } => else_statement,
        ASTTreeNode::IfElseStatement { cond: None, body: _, else_statement: _ } => {
            return Some((0, true));
        },
        ASTTreeNode::ElseStatement { body: _ } => {
            return Some((0, true));
        },
        _ => {
            return None;
        },
    };
    match next {
        None => Some((1, false)),
        Some(n) => {
            match &**n {
                ASTTreeNode::IfStatement { .. } => {
                    return None;
                },
                _ => {},
            }
            match chain_shape(n) {
                Some((count, has_else)) => {
                    if count >= usize::MAX - 1 {
                        None
                    } else {
                        Some((count + 1, has_else))
                    }
                },
                None => None,
            }
        },
    }
}

/// The condition that a branch of a chain tests, if it tests one.
pub open spec fn spec_chain_test(node: ASTTreeNode) -> Option<ASTTreeNode> {
    match node {
        ASTTreeNode::IfStatement { cond, .. } => Some(*cond),
        ASTTreeNode::IfElseStatement { cond: Some(cond), .. } => Some(*cond),
        _ => None,
    }
}

/// Whether the handles of a two-way branch were issued.
pub open spec fn spec_branch_known(
    issued: Issued,
    flag: ValueHandle,
    then_block: BlockHandle,
    else_block: BlockHandle,
) -> bool {
    flag.index < issued.values && then_block.index < issued.blocks && else_block.index
        < issued.blocks
}

/// The value of a static variable as a handle: its value, or the address of
/// its text.
pub open spec fn spec_static_handle(v: IRStaticVariable) -> ValueHandle {
    match v.content {
        StaticContent::Value(h) => h,
        StaticContent::Text(h) => h,
    }
}

/// The layout of the cascade of an `if` that is lowered in the context `ctx`:
/// its first block is the next that the backend issues.
pub open spec fn spec_plan_at(ctx: IRContext, node: ASTTreeNode) -> CascadePlan {
    CascadePlan {
        first: ctx.backend.issued().blocks as usize,
        conditions: spec_chain_conditions(node) as usize,
        has_else: spec_chain_has_else(node),
    }
}

/// Lowers a condition to the integer that a conditional branch tests.
fn lower_condition<'ctx>(func: &IRFunction, ctx: &mut IRContext<'ctx>, cond: &ASTTreeNode) -> (r:
    PositionlessResult<ValueHandle>)
    ensures
        final(ctx).only_built(old(ctx)),
        r matches Ok(flag) ==> spec_tested(
            spec_env(*old(ctx)),
            func.lctx.vars@,
            spec_recorded(old(ctx).backend),
            spec_recorded(final(ctx).backend),
            *cond,
            flag,
        ),
        spec_settled(
            r,
            spec_condition_refusal(spec_env(*old(ctx)), spec_static_scope(func.lctx), *cond),
        ),
        !spec_is_value_node(*cond) ==> fails_with(r, IR_VALUE_NODE) && final(ctx).backend.idle(
            &old(ctx).backend,
        ),
        cond matches ASTTreeNode::VariableReference(e) ==> match spec_get(
            old(ctx).static_vars@,
            e.hash,
        ) {
            Some(v) => final(ctx).backend.idle(&old(ctx).backend) && if *v.t is Bool {
                r == Ok::<ValueHandle, PositionlessError>(spec_static_handle(*v))
            } else {
                fails_with(r, IR_OBTAIN_COND)
            },
            None => !func.lctx.vars@.contains_key(e.hash) ==> fails_with(r, IR_FIND_VARIABLE)
                && final(ctx).backend.idle(&old(ctx).backend),
        },
{
    let got = parse_ir_value(Some(&func.lctx), ctx, cond, None, false);
    let reference = got?;
    let ghost with_value = *ctx;
    let ghost x = reference;
    let obtained = reference.obtain(&mut ctx.backend);
    let value = obtained?;
    match value.obtain_as_bool() {
        Some(v) => {
            proof {
                assert(spec_obtains(
                    spec_recorded(with_value.backend),
                    spec_recorded(ctx.backend),
                    x,
                    value,
                ));
            }
            Ok(v)
        },
        None => Err(PositionlessError::with_message(IR_OBTAIN_COND)),
    }
}

/// Builds the two-way branch on `flag` and moves the cursor to the block that
/// is entered if it holds.
fn branch_on<'ctx>(
    ctx: &mut IRContext<'ctx>,
    flag: ValueHandle,
    then_block: BlockHandle,
    else_block: BlockHandle,
) -> (r: PositionlessResult<bool>)
    ensures
        final(ctx).only_built(old(ctx)),
        match r {
            Ok(done) => done && spec_branched(
                spec_recorded(old(ctx).backend),
                spec_recorded(final(ctx).backend),
                flag,
                then_block,
                else_block,
            ),
            Err(_) => final(ctx).backend.idle(&old(ctx).backend) && if spec_branch_known(
                old(ctx).backend.issued(),
                flag,
                then_block,
                else_block,
            ) {
                fails_with(r, INKWELL_FUNC_FAILED)
            } else {
                fails_with(r, BACKEND_HANDLE)
            },
        },
        !spec_branch_known(old(ctx).backend.issued(), flag, then_block, else_block) ==> r is Err,
{
    match ctx.backend.build_conditional_branch(flag, then_block, else_block) {
        Ok(_) => {},
        Err(e) => {
            return Err(backend_failure(e));
        },
    }
    let ghost branched = *ctx;
    match ctx.backend.position_at_end(then_block) {
        Ok(_) => {},
        Err(e) => {
            return Err(backend_failure(e));
        },
    }
    proof {
        assert(spec_step(
            spec_recorded(old(ctx).backend),
            spec_recorded(branched.backend),
            Instr::ConditionalBranch { cond: flag, then_block, else_block },
        ));
    }
    Ok(true)
}

/// Builds the jump to `target` and moves the cursor to `next`.
fn jump_to<'ctx>(ctx: &mut IRContext<'ctx>, target: BlockHandle, next: BlockHandle) -> (r:
    PositionlessResult<bool>)
    ensures
        final(ctx).only_built(old(ctx)),
        match r {
            Ok(done) => done && spec_jumped(
                spec_recorded(old(ctx).backend),
                spec_recorded(final(ctx).backend),
                target,
                next,
            ),
            Err(_) => if target.index >= old(ctx).backend.issued().blocks {
                fails_with(r, BACKEND_HANDLE) && final(ctx).backend.idle(&old(ctx).backend)
            } else if next.index >= old(ctx).backend.issued().blocks {
                (fails_with(r, INKWELL_FUNC_FAILED) && final(ctx).backend.idle(
                    &old(ctx).backend,
                )) || (fails_with(r, BACKEND_HANDLE) && final(ctx).backend.built(
                    &old(ctx).backend,
                    Instr::Branch { target },
                ))
            } else {
                fails_with(r, INKWELL_FUNC_FAILED) && final(ctx).backend.idle(&old(ctx).backend)
            },
        },
        target.index >= old(ctx).backend.issued().blocks || next.index >= old(ctx).backend.issued().blocks ==> r is Err,
{
    match ctx.backend.build_branch(target) {
        Ok(_) => {},
        Err(e) => {
            return Err(backend_failure(e));
        },
    }
    let ghost jumped = *ctx;
    match ctx.backend.position_at_end(next) {
        Ok(_) => {},
        Err(e) => {
            return Err(backend_failure(e));
        },
    }
    proof {
        assert(spec_step(
            spec_recorded(old(ctx).backend),
            spec_recorded(jumped.backend),
            Instr::Branch { target },
        ));
    }
    Ok(true)
}

/// Appends `count` blocks to `func`.
fn append_blocks<'ctx>(ctx: &mut IRContext<'ctx>, func: FunctionHandle, count: usize) -> (r:
    PositionlessResult<bool>)
    ensures
        final(ctx).only_built(old(ctx)),
        match r {
            Ok(done) => done && spec_appended(
                spec_recorded(old(ctx).backend),
                spec_recorded(final(ctx).backend),
                func,
                count as nat,
            ),
            Err(_) => fails_with(r, BACKEND_HANDLE) && final(ctx).backend.idle(&old(ctx).backend),
        },
        r is Ok <==> count == 0 || func.index < old(ctx).backend.issued().functions,
{
    let ghost start = spec_recorded(ctx.backend);
    let mut made: usize = 0;
    proof {
        assert(ctx.backend.emitted() =~= start.trace + Seq::new(
            0,
            |k: int| Instr::Block { func, dest: BlockHandle { index: (start.issued.blocks + k) as usize } },
        ));
    }
    while made < count
        invariant
            made <= count,
            start == spec_recorded(old(ctx).backend),
            ctx.only_built(old(ctx)),
            spec_appended(start, spec_recorded(ctx.backend), func, made as nat),
            made > 0 ==> func.index < start.issued.functions,
        decreases count - made,
    {
        match ctx.backend.append_block(func, "block") {
            Ok(_) => {},
            Err(e) => {
                return Err(backend_failure(e));
            },
        }
        made += 1;
        proof {
            assert(ctx.backend.emitted() =~= start.trace + Seq::new(
                made as nat,
                |k: int| Instr::Block { func, dest: BlockHandle { index: (start.issued.blocks + k) as usize } },
            ));
        }
    }
    Ok(true)
}

/// Lowers a nested body: enters it, lowers its members, leaves it, and jumps
/// to `exit`.
fn lower_nested_body<'ctx>(
    func: &mut IRFunction,
    ctx: &mut IRContext<'ctx>,
    body: &Vec<Box<ASTTreeNode>>,
    exit: BlockHandle,
) -> (r: PositionlessResult<bool>)
    requires
        old(func).lctx.spec_wf(),
    ensures
        r is Err ==> spec_kept(final(func).lctx, old(func).lctx),
        final(ctx).only_built(old(ctx)),
        spec_same_signature(*final(func), *old(func)),
        r is Ok ==> {
            &&& final(func).lctx.spec_wf()
            &&& spec_scope(final(func).lctx) == spec_scope(old(func).lctx)
            &&& spec_nested_lowers(
                spec_env(*old(ctx)),
                old(func).func,
                spec_recorded(old(ctx).backend),
                spec_recorded(final(ctx).backend),
                spec_scope(old(func).lctx),
                body@,
                exit,
            )
        },
        spec_settled(
            r,
            spec_nested_refusal(spec_env(*old(ctx)), spec_static_scope(old(func).lctx), body@),
        ),
        old(func).lctx.current_depth == i64::MAX ==> fails_with(r, IR_NESTING_DEPTH) && final(ctx).backend.idle(&old(ctx).backend) && *final(func) == *old(func),
        old(func).lctx.current_depth < i64::MAX && body@.len() > 0 && !spec_is_body_member(
            *body@[0],
        ) ==> fails_with(r, IR_BODY_MEMBER) && final(ctx).backend.idle(&old(ctx).backend),
        old(func).lctx.current_depth < i64::MAX && body@.len() == 0 && exit.index >= old(ctx).backend.issued().blocks ==> fails_with(r, BACKEND_HANDLE) && final(ctx).backend.idle(
            &old(ctx).backend,
        ),
    decreases body, 1nat,
{
    if func.lctx.current_depth == i64::MAX {
        return Err(PositionlessError::with_message(IR_NESTING_DEPTH));
    }
    let ghost entry = *func;
    let ghost scope = spec_scope(entry.lctx);
    func.lctx.increment_body_depth();
    assert(spec_scope(func.lctx) == spec_deeper(scope));
    let lowered = parse_ir_body(ctx, func, body, true);
    lowered?;
    let ghost inside = spec_recorded(ctx.backend);
    proof {
        lemma_pruned_identity(entry.lctx.vars@, entry.lctx.current_depth as int);
    }
    match ctx.backend.build_branch(exit) {
        Ok(_) => {
            proof {
                let inner = choose|inner: Scope| #[trigger]
                    spec_grown(inner, spec_deeper(scope)) && spec_members_lower(
                        spec_env(*old(ctx)),
                        entry.func,
                        spec_recorded(old(ctx).backend),
                        inside,
                        spec_deeper(scope),
                        inner,
                        body@,
                    );
                assert(spec_step(inside, spec_recorded(ctx.backend), Instr::Branch { target: exit }));
                lemma_pruned_extension(inner.vars, scope.vars, scope.depth + 1);
            }
            Ok(true)
        },
        Err(e) => Err(backend_failure(e)),
    }
}

/// Lowers the chain of branches from condition `i` on. On entry the cursor is
/// in the block in which condition `i` is tested.
fn lower_chain<'ctx>(
    func: &mut IRFunction,
    ctx: &mut IRContext<'ctx>,
    plan: CascadePlan,
    i: usize,
    node: &ASTTreeNode,
) -> (r: PositionlessResult<bool>)
    requires
        old(func).lctx.spec_wf(),
        plan.spec_wf(),
        i < plan.conditions,
        spec_chain_wf(*node),
        spec_chain_conditions(*node) == plan.conditions - i,
        spec_chain_has_else(*node) == plan.has_else,
    ensures
        r is Err ==> spec_kept(final(func).lctx, old(func).lctx),
        final(ctx).only_built(old(ctx)),
        spec_same_signature(*final(func), *old(func)),
        r is Ok ==> {
            &&& final(func).lctx.spec_wf()
            &&& spec_scope(final(func).lctx) == spec_scope(old(func).lctx)
            &&& spec_chain_lowers(
                spec_env(*old(ctx)),
                old(func).func,
                plan,
                i as int,
                spec_recorded(old(ctx).backend),
                spec_recorded(final(ctx).backend),
                spec_scope(old(func).lctx),
                *node,
            )
        },
        spec_settled(
            r,
            spec_chain_refusal(spec_env(*old(ctx)), spec_static_scope(old(func).lctx), *node),
        ),
        spec_chain_test(*node) matches Some(cond) && !spec_is_value_node(cond) ==> fails_with(
            r,
            IR_VALUE_NODE,
        ) && final(ctx).backend.idle(&old(ctx).backend) && *final(func) == *old(func),
        spec_chain_test(*node) matches Some(ASTTreeNode::VariableReference(e))
            && !old(ctx).static_vars@.contains_key(e.hash) && !old(func).lctx.vars@.contains_key(
            e.hash,
        ) ==> fails_with(r, IR_FIND_VARIABLE) && final(ctx).backend.idle(&old(ctx).backend)
            && *final(func) == *old(func),
    decreases node, 0nat,
{
    let ghost start = *ctx;
    let ghost env = spec_env(start);
    let ghost scope = spec_scope(func.lctx);
    let ghost f = func.func;
    let (cond, body, next) = match node {
        ASTTreeNode::IfStatement { cond, body, else_statement, depth: _ } => (
            &**cond,
            body,
            else_statement,
        ),
        ASTTreeNode::IfElseStatement { cond: Some(cond), body, else_statement } => (
            &**cond,
            body,
            else_statement,
        ),
        _ => {
            return Err(PositionlessError::with_message(IR_MALFORMED_BRANCH));
        },
    };
    let lowered = lower_condition(func, ctx, cond);
    let flag = lowered?;
    let then_block = plan.then_block(i);
    let else_target = plan.else_target(i);
    let parted = branch_on(ctx, flag, then_block, else_target);
    parted?;
    let ghost s2 = spec_recorded(ctx.backend);
    assert(ctx.only_built(&start));
    let done = lower_nested_body(func, ctx, body, plan.exit());
    done?;
    let ghost s3 = spec_recorded(ctx.backend);
    assert(ctx.only_built(&start));
    assert(spec_reached(s2, s3));
    match next {
        None => {},
        Some(n) => {
            match ctx.backend.position_at_end(else_target) {
                Ok(_) => {},
                Err(e) => {
                    return Err(backend_failure(e));
                },
            }
            let ghost s4 = spec_recorded(ctx.backend);
            assert(ctx.only_built(&start));
            assert(spec_step(s3, s4, Instr::Position { block: plan.spec_else_target(i as int) }));
            assert(spec_chain_conditions(*node) == 1 + spec_chain_conditions(**n));
            assert(spec_chain_has_else(*node) == spec_chain_has_else(**n));
            assert(spec_chain_wf(**n));
            match &**n {
                ASTTreeNode::IfElseStatement { cond: Some(_), .. } => {
                    assert(spec_chain_conditions(**n) >= 1);
                    let rest = lower_chain(func, ctx, plan, i + 1, n);
                    assert(ctx.only_built(&start));
                    rest?;
                },
                ASTTreeNode::IfElseStatement { cond: None, body: last, .. } => {
                    let done = lower_nested_body(func, ctx, last, plan.exit());
                    assert(ctx.only_built(&start));
                    done?;
                },
                ASTTreeNode::ElseStatement { body: last } => {
                    let done = lower_nested_body(func, ctx, last, plan.exit());
                    assert(ctx.only_built(&start));
                    done?;
                },
                _ => {
                    return Err(PositionlessError::with_message(IR_MALFORMED_BRANCH));
                },
            }
            assert(spec_rest_lowers(
                env,
                f,
                plan,
                i as int,
                s3,
                spec_recorded(ctx.backend),
                scope,
                *next,
            ));
        },
    }
    assert(spec_rest_lowers(env, f, plan, i as int, s3, spec_recorded(ctx.backend), scope, *next));
    Ok(true)
}

/// Lowers an `if` with its `else if` and `else` branches as a flat cascade of
/// blocks.
///
/// The blocks are appended first, in the order of the cascade's layout. Then
/// each condition is lowered to a boolean and tested by a two-way branch, in
/// source order: to its body if it holds, to the test of the next condition
/// (to the `else`, or to the exit) if it does not. Every body is a nested body
/// of its own and ends in a jump to the one exit block, where the cursor is
/// left.
pub fn parse_if_statement_ir<'ctx>(
    func: &mut IRFunction,
    ctx: &mut IRContext<'ctx>,
    node: &ASTTreeNode,
) -> (r: PositionlessResult<bool>)
    requires
        old(func).lctx.spec_wf(),
    ensures
        r is Err ==> final(ctx).backend.idle(&old(ctx).backend) || exists|s: Recorded| #[trigger]
            spec_appended(
                spec_recorded(old(ctx).backend),
                s,
                old(func).func,
                spec_plan_at(*old(ctx), *node).spec_block_count(),
            ) && spec_reached(s, spec_recorded(final(ctx).backend)),
        r is Err ==> spec_kept(final(func).lctx, old(func).lctx),
        final(ctx).only_built(old(ctx)),
        spec_same_signature(*final(func), *old(func)),
        !(*node is IfStatement) ==> fails_with(r, IR_NODE_KIND) && final(ctx).backend.idle(
            &old(ctx).backend,
        ) && final(func).lctx == old(func).lctx,
        *node is IfStatement && !spec_chain_wf(*node) ==> fails_with(r, IR_MALFORMED_BRANCH)
            && final(ctx).backend.idle(&old(ctx).backend) && final(func).lctx == old(func).lctx,
        *node is IfStatement ==> spec_settled(
            r,
            spec_if_refusal(spec_env(*old(ctx)), spec_static_scope(old(func).lctx), *node),
        ),
        *node is IfStatement && spec_chain_wf(*node) && spec_chain_conditions(*node) < usize::MAX
            && spec_plan_at(*old(ctx), *node).spec_wf() && old(func).func.index >= old(ctx).backend.issued().functions ==> fails_with(r, BACKEND_HANDLE) && final(ctx).backend.idle(
            &old(ctx).backend,
        ),
        r is Err && final(ctx).backend.idle(&old(ctx).backend) ==> !(*node is IfStatement)
            || !spec_chain_wf(*node) || spec_chain_conditions(*node) >= usize::MAX || !spec_plan_at(
            *old(ctx),
            *node,
        ).spec_wf() || old(func).func.index >= old(ctx).backend.issued().functions,
        r is Ok ==> {
            &&& r == Ok::<bool, PositionlessError>(true)
            &&& final(func).lctx.spec_wf()
            &&& spec_scope(final(func).lctx) == spec_scope(old(func).lctx)
            &&& spec_if_lowers(
                spec_env(*old(ctx)),
                old(func).func,
                spec_recorded(old(ctx).backend),
                spec_recorded(final(ctx).backend),
                spec_scope(old(func).lctx),
                *node,
            )
        },
    decreases node, 1nat,
{
    match node {
        ASTTreeNode::IfStatement { .. } => {},
        _ => {
            return Err(PositionlessError::with_message(IR_NODE_KIND));
        },
    }
    let (conditions, has_else) = match chain_shape(node) {
        Some(shape) => shape,
        None => {
            return Err(PositionlessError::with_message(IR_MALFORMED_BRANCH));
        },
    };
    let ghost start = *ctx;
    let plan = match CascadePlan::new(ctx.backend.blocks_issued(), conditions, has_else) {
        Some(p) => p,
        None => {
            return Err(PositionlessError::with_message(BACKEND_HANDLE));
        },
    };
    let made = append_blocks(ctx, func.func, plan.block_count());
    made?;
    let ghost s0 = spec_recorded(ctx.backend);
    let lowered = lower_chain(func, ctx, plan, 0, node);
    proof {
        assert(spec_reached(s0, spec_recorded(ctx.backend)));
        assert(plan == spec_plan_at(start, *node));
        assert(spec_appended(
            spec_recorded(old(ctx).backend),
            s0,
            old(func).func,
            spec_plan_at(*old(ctx), *node).spec_block_count(),
        ));
    }
    lowered?;
    let ghost s1 = spec_recorded(ctx.backend);
    assert(ctx.only_built(&start));
    match ctx.backend.position_at_end(plan.exit()) {
        Ok(_) => {},
        Err(e) => {
            return Err(backend_failure(e));
        },
    }
    proof {
        assert(spec_appended(
            spec_recorded(start.backend),
            s0,
            func.func,
            plan.spec_block_count(),
        ));
        assert(spec_step(s1, spec_recorded(ctx.backend), Instr::Position { block: plan.spec_exit() }));
    }
    Ok(true)
}

/// Lowers a `for` loop: the initializer once, in the enclosing body; a block
/// that tests the condition before each iteration; a block for the body, which
/// is a nested body of its own and ends with the increment and a jump back to
/// the test; and a block after the loop, where the cursor is left.
pub fn parse_for_statement_ir<'ctx>(
    func: &mut IRFunction,
    ctx: &mut IRContext<'ctx>,
    node: &ASTTreeNode,
) -> (r: PositionlessResult<bool>)
    requires
        old(func).lctx.spec_wf(),
    ensures
        r is Err ==> final(ctx).backend.idle(&old(ctx).backend) || exists|s: Recorded| #[trigger]
            spec_appended(spec_recorded(old(ctx).backend), s, old(func).func, 3) && spec_reached(
                s,
                spec_recorded(final(ctx).backend),
            ),
        r is Err ==> spec_kept(final(func).lctx, old(func).lctx),
        final(ctx).only_built(old(ctx)),
        spec_same_signature(*final(func), *old(func)),
        !(*node is ForBlock) ==> fails_with(r, IR_NODE_KIND) && final(ctx).backend.idle(
            &old(ctx).backend,
        ) && final(func).lctx == old(func).lctx,
        *node is ForBlock ==> spec_passed(
            r,
            spec_static_scope(final(func).lctx),
            spec_for_outcome(spec_env(*old(ctx)), spec_static_scope(old(func).lctx), *node),
        ),
        *node is ForBlock && old(ctx).backend.issued().blocks <= usize::MAX - 3 && old(func).func.index >= old(ctx).backend.issued().functions ==> fails_with(r, BACKEND_HANDLE)
            && final(ctx).backend.idle(&old(ctx).backend),
        r is Err && final(ctx).backend.idle(&old(ctx).backend) ==> !(*node is ForBlock) || old(ctx).backend.issued().blocks > usize::MAX - 3 || old(func).func.index >= old(ctx).backend.issued().functions,
        r is Ok ==> {
            &&& r == Ok::<bool, PositionlessError>(true)
            &&& final(func).lctx.spec_wf()
            &&& spec_grown(spec_scope(final(func).lctx), spec_scope(old(func).lctx))
            &&& spec_for_lowers(
                spec_env(*old(ctx)),
                old(func).func,
                spec_recorded(old(ctx).backend),
                spec_recorded(final(ctx).backend),
                spec_scope(old(func).lctx),
                spec_scope(final(func).lctx),
                *node,
            )
        },
    decreases node, 1nat,
{
    match node {
        ASTTreeNode::ForBlock { initial_state, cond, increment, body } => {
            let ghost start = *ctx;
            let ghost a = spec_recorded(start.backend);
            let ghost env = spec_env(start);
            let ghost f = func.func;
            let ghost before = spec_scope(func.lctx);
            let first = ctx.backend.blocks_issued();
            if first > usize::MAX - 3 {
                return Err(PositionlessError::with_message(BACKEND_HANDLE));
            }
            let test = BlockHandle { index: first };
            let inside = BlockHandle { index: first + 1 };
            let past = BlockHandle { index: first + 2 };
            let made = append_blocks(ctx, func.func, 3);
            made?;
            let ghost s0 = spec_recorded(ctx.backend);
            let started = parse_ir_function_body_member(ctx, func, initial_state);
            started?;
            let ghost s1 = spec_recorded(ctx.backend);
            let ghost after = spec_scope(func.lctx);
            assert(ctx.only_built(&start));
            let entered = jump_to(ctx, test, test);
            entered?;
            let ghost s2 = spec_recorded(ctx.backend);
            assert(ctx.only_built(&start));
            let lowered = lower_condition(func, ctx, cond);
            let flag = lowered?;
            let ghost s3 = spec_recorded(ctx.backend);
            assert(ctx.only_built(&start));
            let parted = branch_on(ctx, flag, inside, past);
            parted?;
            let ghost s4 = spec_recorded(ctx.backend);
            assert(ctx.only_built(&start));
            if func.lctx.current_depth == i64::MAX {
                return Err(PositionlessError::with_message(IR_NESTING_DEPTH));
            }
            func.lctx.increment_body_depth();
            assert(spec_scope(func.lctx) == spec_deeper(after));
            let members = parse_ir_body(ctx, func, body, false);
            members?;
            let ghost s5 = spec_recorded(ctx.backend);
            let ghost inner = spec_scope(func.lctx);
            assert(ctx.only_built(&start));
            let stepped = parse_ir_function_body_member(ctx, func, increment);
            stepped?;
            let ghost s6 = spec_recorded(ctx.backend);
            let ghost last = spec_scope(func.lctx);
            assert(ctx.only_built(&start));
            func.lctx.end_nested_body_depth();
            proof {
                lemma_extends_trans(after.vars, inner.vars, last.vars, after.depth + 1);
                lemma_pruned_extension(last.vars, after.vars, after.depth + 1);
                lemma_pruned_identity(after.vars, after.depth);
                assert(spec_scope(func.lctx) == after);
            }
            let left = jump_to(ctx, test, past);
            left?;
            proof {
                assert(spec_reached(s4, s5));
                assert(spec_grown(last, inner));
                assert(spec_grown(inner, spec_deeper(after)));
                assert(spec_jumped(s6, spec_recorded(ctx.backend), test, past));
                assert(spec_jumped(s1, s2, test, test));
                assert(spec_branched(s3, s4, flag, inside, past));
                assert(spec_appended(a, s0, f, 3));
                assert(spec_tested(env, after.vars, s2, s3, **cond, flag));
                assert(spec_grown(after, before));
                assert(test == BlockHandle { index: a.issued.blocks as usize });
                assert(inside == BlockHandle { index: (a.issued.blocks + 1) as usize });
                assert(past == BlockHandle { index: (a.issued.blocks + 2) as usize });
            }
            Ok(true)
        },
        _ => Err(PositionlessError::with_message(IR_NODE_KIND)),
    }
}

} // verus!

use std::rc::Rc;

use inkwell::context::Context;
use quickfall::ir::backend::{BlockHandle, Instr, Predicate};
use quickfall::ir::conv::cascade::CascadePlan;
use quickfall::ir::conv::control::{parse_for_statement_ir, parse_if_statement_ir};
use quickfall::ir::conv::func::{
    parse_ir_body, parse_ir_function_body_member, parse_ir_function_call, parse_ir_function_decl,
    parse_ir_shadow_function_decl,
};
use quickfall::ir::conv::{lower_declarations, parse_ir_node_toplevel};
use quickfall::ir::conv::structs::parse_ir_struct_decl;
use quickfall::ir::conv::val::{get_variable_ref, parse_ir_value, parse_ir_values};
use quickfall::ir::ctx::IRContext;
use quickfall::ir::irstruct::funcs::IRFunction;
use quickfall::ir::irstruct::staticvars::StaticContent;
use quickfall::ir::refs::IRValueRefKind;
use quickfall::ir::types::typing::IRType;
use quickfall::ir::types::{BOOL_TYPE_HASH, SIGNED32_TYPE_HASH, SIGNED64_TYPE_HASH};
use quickfall::lexer::lexer::lexer_parse_text;
use quickfall::lexer::toks::math::MathOperator;
use quickfall::parser::ast::tree::ASTTreeNode;
use quickfall::parser::ast::{parse_ast_node, parse_ast_node_in_body, parse_ast_value};
use quickfall::parser::ctx::ParserCtx;
use quickfall::parser::parse_ast_ctx;
use quickfall::utils::hash::WithHash;

/// The hash that the library gives to a name.
fn utils_get_hash(name: &str) -> u64 {
    WithHash::new(name.to_string()).hash
}

/// A context with a function `host` whose entry block the cursor is in.
fn in_a_function<'ctx>(context: &'ctx Context) -> (IRContext<'ctx>, IRFunction) {
    let mut ctx = IRContext::new(context).unwrap();
    let func = IRFunction::create(&mut ctx.backend, "host".to_string(), None, vec![]).unwrap();
    assert!(func.prepare_body_filling(&mut ctx.backend));
    (ctx, func)
}

fn statement(text: &str) -> Box<ASTTreeNode> {
    let tokens = lexer_parse_text(text, "s.qf").unwrap();
    let mut ind = 0;
    let node = parse_ast_node_in_body(&tokens, &mut ind).unwrap();
    // A statement that ends in a body leaves the index on its closing bracket.
    let rest = if node.ends_in_body() { 2 } else { 1 };
    assert_eq!(ind, tokens.len() - rest);
    node
}

fn value(text: &str) -> Box<ASTTreeNode> {
    let tokens = lexer_parse_text(text, "v.qf").unwrap();
    let mut ind = 0;
    let node = parse_ast_value(&tokens, &mut ind).unwrap();
    assert_eq!(ind, tokens.len() - 1);
    node
}

fn declaration(text: &str) -> Box<ASTTreeNode> {
    let tokens = lexer_parse_text(text, "d.qf").unwrap();
    let mut ind = 0;
    parse_ast_node(&tokens, &mut ind).unwrap()
}

fn lower(ctx: &mut IRContext, func: &mut IRFunction, text: &str) {
    parse_ir_function_body_member(ctx, func, &statement(text)).unwrap();
}

#[test]
fn declaration_and_if_lower_to_slots_a_signed_comparison_and_a_branch() {
    let context = Context::create();
    let (mut ctx, mut func) = in_a_function(&context);
    let i32_type = ctx.type_storage.get(SIGNED32_TYPE_HASH).unwrap().get_inkwell_basetype();
    let x = utils_get_hash("x");
    let y = utils_get_hash("y");

    let start = ctx.backend.trace().len();
    lower(&mut ctx, &mut func, "var i32 x = 5");
    let x_slot = func.lctx.get_variable(x).unwrap().ptr;
    assert!(matches!(*func.lctx.get_variable(x).unwrap().t, IRType::Signed32(_)));
    let trace = ctx.backend.trace()[start..].to_vec();
    let five = match trace[0] {
        Instr::ConstSigned { value: 5, dest, .. } => dest,
        other => panic!("no constant: {:?}", other),
    };
    let fitted = match trace[1] {
        Instr::IntCast { value, ty, signed: true, dest } if value == five && ty == i32_type => dest,
        other => panic!("no cast: {:?}", other),
    };
    assert_eq!(
        trace[2..],
        [
            Instr::Alloca { ty: i32_type, dest: x_slot },
            Instr::Store { ptr: x_slot, value: fitted },
        ]
    );

    let before_if = ctx.backend.trace().len();
    let blocks = ctx.backend.blocks_issued();
    lower(&mut ctx, &mut func, "if (x > 3) { var i32 y = 1 }");
    let trace = ctx.backend.trace()[before_if..].to_vec();
    let exit = BlockHandle { index: blocks };
    let then_block = BlockHandle { index: blocks + 1 };
    assert_eq!(ctx.backend.blocks_issued(), blocks + 2);
    let compared = trace
        .iter()
        .find_map(|i| match i {
            Instr::Compare { predicate, dest, .. } => Some((*predicate, *dest)),
            _ => None,
        })
        .unwrap();
    assert_eq!(compared.0, Predicate::SignedGreater);
    assert!(trace.contains(&Instr::Load { ptr: x_slot, dest: match trace.iter().find(|i| matches!(i, Instr::Load { .. })).unwrap() {
        Instr::Load { dest, .. } => *dest,
        _ => unreachable!(),
    } }));
    assert!(trace.contains(&Instr::ConditionalBranch {
        cond: compared.1,
        then_block,
        else_block: exit,
    }));
    // One condition, one two-way branch.
    assert_eq!(trace.iter().filter(|i| matches!(i, Instr::ConditionalBranch { .. })).count(), 1);
    let slots: Vec<&Instr> = trace.iter().filter(|i| matches!(i, Instr::Alloca { .. })).collect();
    assert_eq!(slots.len(), 1);
    assert!(matches!(slots[0], Instr::Alloca { ty, .. } if *ty == i32_type));
    assert_eq!(trace[trace.len() - 2..], [Instr::Branch { target: exit }, Instr::Position { block: exit }]);

    // The inner variable is gone, the outer one is still there.
    assert!(func.lctx.get_variable(y).is_err());
    assert_eq!(func.lctx.get_variable(x).unwrap().ptr, x_slot);
    assert_eq!(func.lctx.current_depth, 0);
    assert_eq!(func.lctx.vars.entries().len(), 1);

    let llvm = ctx.backend.print();
    assert!(llvm.contains("%x = alloca i32"), "{}", llvm);
    assert!(llvm.contains("store i32 5, i32* %x"), "{}", llvm);
    assert!(llvm.contains("icmp sgt i32"), "{}", llvm);
    assert!(llvm.contains("br i1"), "{}", llvm);
    assert!(llvm.contains("%y = alloca i32"), "{}", llvm);
    assert!(llvm.contains("store i32 1, i32* %y"), "{}", llvm);
}

#[test]
fn whole_file_lowers_from_its_text() {
    let context = Context::create();
    let mut ctx = IRContext::new(&context).unwrap();
    let tokens = lexer_parse_text(
        "func main() {\n  var i32 x = 5\n  if (x > 3) {\n    var i32 y = 1\n  }\n}\n",
        "main.qf",
    )
    .unwrap();
    let parsed = parse_ast_ctx(&tokens).unwrap();
    assert_eq!(parsed.iter_order, vec!["main".to_string()]);
    assert_eq!(parse_ir_node_toplevel(&mut ctx, parsed.get("main").unwrap()).unwrap(), true);
    let main = ctx.get_funtion(utils_get_hash("main")).unwrap();
    assert_eq!(main.name, "main");
    assert!(main.ret_type.is_none());
    assert!(main.lctx.vars.entries().is_empty());
    assert_eq!(*ctx.backend.trace().last().unwrap(), Instr::Return { value: None });
    let llvm = ctx.backend.print();
    assert!(llvm.contains("define void @main()"), "{}", llvm);
    assert!(llvm.contains("icmp sgt i32"), "{}", llvm);
    assert!(llvm.contains("ret void"), "{}", llvm);
    // A second declaration of the name fails.
    assert!(parse_ir_node_toplevel(&mut ctx, parsed.get("main").unwrap()).is_err());
}

#[test]
fn cascade_tests_its_conditions_in_source_order() {
    let context = Context::create();
    let (mut ctx, mut func) = in_a_function(&context);
    lower(&mut ctx, &mut func, "var i32 a = 1");
    let blocks = ctx.backend.blocks_issued();
    let before = ctx.backend.trace().len();
    let node = statement(
        "if (a > 5) { var i32 p = 1 } else if (a > 2) { var i32 q = 2 } else { var i32 r = 3 }",
    );
    assert_eq!(parse_if_statement_ir(&mut func, &mut ctx, &node).unwrap(), true);

    let plan = CascadePlan::new(blocks, 2, true).unwrap();
    assert_eq!(plan.block_count(), 5);
    assert_eq!(ctx.backend.blocks_issued(), blocks + 5);
    let block = |offset: usize| BlockHandle { index: blocks + offset };
    assert_eq!(plan.exit(), block(0));
    assert_eq!(plan.then_block(0), block(1));
    assert_eq!(plan.else_target(0), block(2));
    assert_eq!(plan.then_block(1), block(3));
    assert_eq!(plan.else_target(1), block(4));
    assert_eq!(plan.else_block(), block(4));

    // What moves the cursor or ends a block, in the order in which it was built.
    let flow: Vec<Instr> = ctx.backend.trace()[before..]
        .iter()
        .filter(|i| {
            matches!(
                i,
                Instr::Block { .. } | Instr::Position { .. } | Instr::Branch { .. } | Instr::ConditionalBranch { .. }
            )
        })
        .map(|i| match *i {
            // The conditions are told by their place, not by their value.
            Instr::ConditionalBranch { then_block, else_block, .. } => Instr::ConditionalBranch {
                cond: quickfall::ir::backend::ValueHandle { index: 0 },
                then_block,
                else_block,
            },
            other => other,
        })
        .collect();
    let cond = quickfall::ir::backend::ValueHandle { index: 0 };
    assert_eq!(
        flow,
        vec![
            Instr::Block { func: func.func, dest: block(0) },
            Instr::Block { func: func.func, dest: block(1) },
            Instr::Block { func: func.func, dest: block(2) },
            Instr::Block { func: func.func, dest: block(3) },
            Instr::Block { func: func.func, dest: block(4) },
            Instr::ConditionalBranch { cond, then_block: block(1), else_block: block(2) },
            Instr::Position { block: block(1) },
            Instr::Branch { target: block(0) },
            Instr::Position { block: block(2) },
            Instr::ConditionalBranch { cond, then_block: block(3), else_block: block(4) },
            Instr::Position { block: block(3) },
            Instr::Branch { target: block(0) },
            Instr::Position { block: block(4) },
            Instr::Branch { target: block(0) },
            Instr::Position { block: block(0) },
        ]
    );
    // Each body was a scope of its own.
    for name in ["p", "q", "r"] {
        assert!(func.lctx.get_variable(utils_get_hash(name)).is_err());
    }
    assert!(func.lctx.get_variable(utils_get_hash("a")).is_ok());
    assert_eq!(func.lctx.current_depth, 0);
}

#[test]
fn cascade_without_else_falls_through_to_the_exit() {
    let context = Context::create();
    let (mut ctx, mut func) = in_a_function(&context);
    lower(&mut ctx, &mut func, "var bool done");
    let blocks = ctx.backend.blocks_issued();
    lower(&mut ctx, &mut func, "if (done) { } else if (!done) { }");
    let branches: Vec<(BlockHandle, BlockHandle)> = ctx
        .backend
        .trace()
        .iter()
        .filter_map(|i| match i {
            Instr::ConditionalBranch { then_block, else_block, .. } => Some((*then_block, *else_block)),
            _ => None,
        })
        .collect();
    let block = |offset: usize| BlockHandle { index: blocks + offset };
    assert_eq!(branches, vec![(block(1), block(2)), (block(3), block(0))]);
    let plan = CascadePlan::new(blocks, 2, false).unwrap();
    assert_eq!(plan.block_count(), 4);
    assert_eq!(plan.else_target(1), plan.exit());
    assert!(ctx.backend.print().contains("xor i1"));
}

#[test]
fn cascade_plan_needs_a_condition_and_room() {
    assert!(CascadePlan::new(0, 0, true).is_none());
    assert!(CascadePlan::new(usize::MAX - 2, 1, true).is_none());
    assert!(CascadePlan::new(usize::MAX - 3, 1, true).is_some());
    assert!(CascadePlan::new(0, usize::MAX / 2, false).is_some());
    assert!(CascadePlan::new(2, usize::MAX / 2, false).is_none());
    assert!(CascadePlan::new(0, usize::MAX / 2 + 1, false).is_none());
}

#[test]
fn if_refuses_what_is_no_if_and_what_is_no_boolean() {
    let context = Context::create();
    let (mut ctx, mut func) = in_a_function(&context);
    let count = ctx.backend.trace().len();
    let refused = parse_if_statement_ir(&mut func, &mut ctx, &statement("var i32 x")).unwrap_err();
    assert_eq!(refused.reason, "Cannot use this lowering rule on the given AST node!");
    assert_eq!(ctx.backend.trace().len(), count);
    lower(&mut ctx, &mut func, "var i32 n = 1");
    let refused = parse_if_statement_ir(&mut func, &mut ctx, &statement("if (n) { }")).unwrap_err();
    assert_eq!(refused.reason, "Cannot use this value as a condition boolean.");
    let malformed = ASTTreeNode::IfStatement {
        cond: value("n"),
        body: vec![],
        else_statement: Some(value("n")),
        depth: 0,
    };
    let count = ctx.backend.trace().len();
    assert_eq!(
        parse_if_statement_ir(&mut func, &mut ctx, &malformed).unwrap_err().reason,
        "Malformed branch in an if statement."
    );
    assert_eq!(ctx.backend.trace().len(), count);
}

#[test]
fn for_loop_tests_before_each_iteration_and_steps_after_it() {
    let context = Context::create();
    let (mut ctx, mut func) = in_a_function(&context);
    let blocks = ctx.backend.blocks_issued();
    let before = ctx.backend.trace().len();
    let node = statement("for (i32 i = 0, i < 3, i += 1) { var i32 twice = i }");
    assert_eq!(parse_for_statement_ir(&mut func, &mut ctx, &node).unwrap(), true);
    let block = |offset: usize| BlockHandle { index: blocks + offset };
    let flow: Vec<Instr> = ctx.backend.trace()[before..]
        .iter()
        .filter(|i| {
            matches!(
                i,
                Instr::Block { .. } | Instr::Position { .. } | Instr::Branch { .. } | Instr::ConditionalBranch { .. }
            )
        })
        .cloned()
        .collect();
    assert_eq!(flow.len(), 9);
    assert_eq!(
        flow[..5],
        [
            Instr::Block { func: func.func, dest: block(0) },
            Instr::Block { func: func.func, dest: block(1) },
            Instr::Block { func: func.func, dest: block(2) },
            Instr::Branch { target: block(0) },
            Instr::Position { block: block(0) },
        ]
    );
    assert!(matches!(
        flow[5],
        Instr::ConditionalBranch { then_block, else_block, .. } if then_block == block(1) && else_block == block(2)
    ));
    assert_eq!(
        flow[6..],
        [
            Instr::Position { block: block(1) },
            Instr::Branch { target: block(0) },
            Instr::Position { block: block(2) },
        ]
    );
    // The loop variable stays, what the body bound is gone.
    assert!(func.lctx.get_variable(utils_get_hash("i")).is_ok());
    assert!(func.lctx.get_variable(utils_get_hash("twice")).is_err());
    assert_eq!(func.lctx.current_depth, 0);
    let llvm = ctx.backend.print();
    assert!(llvm.contains("icmp slt i32"), "{}", llvm);
    assert!(llvm.contains("add i32"), "{}", llvm);
    assert_eq!(
        parse_for_statement_ir(&mut func, &mut ctx, &statement("var i32 z")).unwrap_err().reason,
        "Cannot use this lowering rule on the given AST node!"
    );
}

#[test]
fn values_are_lowered_by_their_kind() {
    let context = Context::create();
    let (mut ctx, mut func) = in_a_function(&context);
    lower(&mut ctx, &mut func, "var i32 n = 4");
    let slot = func.lctx.get_variable(utils_get_hash("n")).unwrap().ptr;

    // An integer literal is a constant of the 64-bit signed type.
    let literal = parse_ir_value(Some(&func.lctx), &mut ctx, &value("12"), None, false).unwrap();
    match literal.kind {
        IRValueRefKind::Val(v) => {
            assert!(matches!(*v.t, IRType::Signed64(_)));
            let i64_type = ctx.type_storage.get(SIGNED64_TYPE_HASH).unwrap().get_inkwell_basetype();
            assert_eq!(
                *ctx.backend.trace().last().unwrap(),
                Instr::ConstSigned { ty: i64_type, value: 12, dest: v.value }
            );
        }
        _ => panic!("no value"),
    }

    // A string literal is deferred inside a declaration and a global elsewhere.
    let count = ctx.backend.trace().len();
    let deferred = parse_ir_value(Some(&func.lctx), &mut ctx, &value("\"hi\""), None, true).unwrap();
    assert_eq!(deferred.obtain_tempstr().unwrap(), "\"hi\"");
    assert_eq!(ctx.backend.trace().len(), count);
    let eager = parse_ir_value(Some(&func.lctx), &mut ctx, &value("\"hi\""), None, false).unwrap();
    match eager.kind {
        IRValueRefKind::Global(t, g) => {
            assert!(matches!(*t, IRType::Pointer(_)));
            let dest = match g.content {
                StaticContent::Text(v) => v,
                StaticContent::Value(_) => panic!("a string is no value"),
            };
            assert_eq!(*ctx.backend.trace().last().unwrap(), Instr::GlobalString { len: 4, dest });
        }
        _ => panic!("no global"),
    }

    // A variable is its stack location.
    let count = ctx.backend.trace().len();
    let variable = parse_ir_value(Some(&func.lctx), &mut ctx, &value("n"), None, false).unwrap();
    assert_eq!(variable.as_pointer().unwrap().ptr, slot);
    assert_eq!(ctx.backend.trace().len(), count);
    assert_eq!(get_variable_ref(&func.lctx, &ctx, utils_get_hash("n")).unwrap().as_pointer().unwrap().ptr, slot);
    assert_eq!(
        parse_ir_value(Some(&func.lctx), &mut ctx, &value("missing"), None, false).err().unwrap().reason,
        "Cannot find variable in the current context."
    );
    assert!(parse_ir_value(None, &mut ctx, &value("n"), None, false).is_err());

    // Arithmetic takes the type of its left operand; the assigning form stores.
    let sum = parse_ir_value(Some(&func.lctx), &mut ctx, &value("n + 1"), None, false).unwrap();
    assert!(matches!(*sum.get_type().unwrap(), IRType::Signed32(_)));
    assert!(matches!(*ctx.backend.trace().last().unwrap(), Instr::Binary { .. }));
    let assigned = parse_ir_value(Some(&func.lctx), &mut ctx, &value("n *= 2"), None, false).unwrap();
    let product = match assigned.kind {
        IRValueRefKind::Val(v) => v.value,
        _ => panic!("no value"),
    };
    assert_eq!(*ctx.backend.trace().last().unwrap(), Instr::Store { ptr: slot, value: product });
    let refused = ASTTreeNode::MathResult {
        lval: value("1"),
        rval: value("2"),
        operator: MathOperator::ADD,
        assigns: true,
    };
    assert_eq!(
        parse_ir_value(Some(&func.lctx), &mut ctx, &refused, None, false).err().unwrap().reason,
        "Cannot perform math assignment operations if the left value is not a variable."
    );

    // What is no value is refused, and nothing is built for it.
    let count = ctx.backend.trace().len();
    assert_eq!(
        parse_ir_value(Some(&func.lctx), &mut ctx, &statement("var i32 q"), None, false).err().unwrap().reason,
        "The given node cannot be parsed as a value!"
    );
    assert_eq!(ctx.backend.trace().len(), count);

    let llvm = ctx.backend.print();
    assert!(llvm.contains("add i32"), "{}", llvm);
    assert!(llvm.contains("mul i32"), "{}", llvm);
}

#[test]
fn declarations_in_a_body() {
    let context = Context::create();
    let (mut ctx, mut func) = in_a_function(&context);
    lower(&mut ctx, &mut func, "var i32 n = 4");
    // A name is bound once in a function.
    let again = parse_ir_function_body_member(&mut ctx, &mut func, &statement("var i32 n = 5")).unwrap_err();
    assert_eq!(again.reason, "Variable is already registered in the current context.");
    // The type must be registered.
    let count = ctx.backend.trace().len();
    let untyped = parse_ir_function_body_member(&mut ctx, &mut func, &statement("var nothing m")).unwrap_err();
    assert_eq!(untyped.reason, "Cannot find said type.");
    assert_eq!(ctx.backend.trace().len(), count);
    // The declaration decides how the text of a string literal is held.
    lower(&mut ctx, &mut func, "var ptr s = \"hey\"");
    let s = func.lctx.get_variable(utils_get_hash("s")).unwrap().ptr;
    let trace = ctx.backend.trace();
    let text = match trace[trace.len() - 3] {
        Instr::GlobalString { len: 5, dest } => dest,
        other => panic!("no global: {:?}", other),
    };
    assert!(matches!(trace[trace.len() - 2], Instr::Alloca { dest, .. } if dest == s));
    assert_eq!(trace[trace.len() - 1], Instr::Store { ptr: s, value: text });

    // Arithmetic stands as a statement only where it assigns.
    let plain = ASTTreeNode::MathResult {
        lval: value("n"),
        rval: value("1"),
        operator: MathOperator::ADD,
        assigns: false,
    };
    let count = ctx.backend.trace().len();
    assert_eq!(
        parse_ir_function_body_member(&mut ctx, &mut func, &plain).unwrap_err().reason,
        "This context enforces the usage of assigments in math operations. Please remove this operation or make it assigned"
    );
    assert_eq!(ctx.backend.trace().len(), count);
    lower(&mut ctx, &mut func, "n -= 1");
    assert!(ctx.backend.print().contains("sub i32"));

    let other = ASTTreeNode::IntegerLit(3);
    assert_eq!(
        parse_ir_function_body_member(&mut ctx, &mut func, &other).unwrap_err().reason,
        "Cannot parse said ASTNode as a function body member!"
    );
    let returned = ASTTreeNode::ReturnStatement { val: Some(value("n")) };
    assert_eq!(parse_ir_function_body_member(&mut ctx, &mut func, &returned).unwrap(), true);
    assert!(matches!(*ctx.backend.trace().last().unwrap(), Instr::Return { value: Some(_) }));
}

#[test]
fn bodies_drop_what_they_bound() {
    let context = Context::create();
    let (mut ctx, mut func) = in_a_function(&context);
    lower(&mut ctx, &mut func, "var i32 outer = 1");
    let tokens = lexer_parse_text("{ var i32 a = 1 var i32 b = 2 }", "b.qf").unwrap();
    let mut ind = 0;
    let body = quickfall::parser::ast::func::parse_node_body(&tokens, &mut ind).unwrap();
    func.lctx.increment_body_depth();
    assert_eq!(parse_ir_body(&mut ctx, &mut func, &body, false).unwrap(), true);
    assert!(func.lctx.get_variable(utils_get_hash("a")).is_ok());
    assert_eq!(func.lctx.current_depth, 1);
    assert_eq!(parse_ir_body(&mut ctx, &mut func, &vec![], true).unwrap(), true);
    assert_eq!(func.lctx.current_depth, 0);
    assert!(func.lctx.get_variable(utils_get_hash("a")).is_err());
    assert!(func.lctx.get_variable(utils_get_hash("b")).is_err());
    assert!(func.lctx.get_variable(utils_get_hash("outer")).is_ok());
}

#[test]
fn calls_resolve_their_callee_by_name() {
    let context = Context::create();
    let mut ctx = IRContext::new(&context).unwrap();
    let shadow = ASTTreeNode::ShadowFunctionDeclaration {
        func_name: WithHash::new("twice".to_string()),
        args: vec![quickfall::parser::ast::tree::FunctionDeclarationArgument::new(
            "n".to_string(),
            SIGNED32_TYPE_HASH,
        )],
        returnType: Some(SIGNED32_TYPE_HASH),
    };
    let declared = parse_ir_shadow_function_decl(&mut ctx, &shadow).unwrap();
    assert_eq!(declared.name, "twice");
    assert!(declared.entry.is_none());
    assert!(parse_ir_shadow_function_decl(&mut ctx, &shadow).is_err());
    let quiet = ASTTreeNode::ShadowFunctionDeclaration {
        func_name: WithHash::new("quiet".to_string()),
        args: vec![],
        returnType: None,
    };
    assert_eq!(parse_ir_node_toplevel(&mut ctx, &quiet).unwrap(), true);

    let mut func = IRFunction::create(&mut ctx.backend, "host".to_string(), None, vec![]).unwrap();
    assert!(func.prepare_body_filling(&mut ctx.backend));
    lower(&mut ctx, &mut func, "var i32 n = 4");

    let before = ctx.backend.trace().len();
    let result = parse_ir_value(Some(&func.lctx), &mut ctx, &value("twice(n)"), None, false).unwrap();
    assert!(matches!(result.kind, IRValueRefKind::Ptr(_, _)));
    assert!(ctx.backend.trace()[before..]
        .iter()
        .any(|i| matches!(i, Instr::Call { func, args: 1, dest: Some(_) } if *func == declared.func)));

    // A function that returns nothing has no value.
    assert_eq!(
        parse_ir_value(Some(&func.lctx), &mut ctx, &value("quiet()"), None, false).err().unwrap().reason,
        "Cannot use the result of the function as a value as it is void!"
    );
    // As a statement it is fine, and its result is not asked for.
    lower(&mut ctx, &mut func, "quiet()");
    assert!(matches!(*ctx.backend.trace().last().unwrap(), Instr::Call { args: 0, dest: None, .. }));
    let none = parse_ir_function_call(&mut ctx, &func.lctx, &value("twice(n)"), None, false).unwrap();
    assert!(none.is_none());
    let some = parse_ir_function_call(&mut ctx, &func.lctx, &value("twice(n)"), None, true).unwrap();
    assert!(matches!(some.unwrap().kind, IRValueRefKind::Ptr(_, _)));
    assert_eq!(
        parse_ir_function_call(&mut ctx, &func.lctx, &value("unknown()"), None, true).err().unwrap().reason,
        "Cannot find function in the current context."
    );
    assert_eq!(
        parse_ir_function_call(&mut ctx, &func.lctx, &value("n"), None, true).err().unwrap().reason,
        "Cannot use this lowering rule on the given AST node!"
    );
    let llvm = ctx.backend.print();
    assert!(llvm.contains("declare i32 @twice(i32)"), "{}", llvm);
    assert!(llvm.contains("call void @quiet()"), "{}", llvm);
}

#[test]
fn struct_declaration_registers_its_type_and_fields_resolve_through_it() {
    let context = Context::create();
    let mut ctx = IRContext::new(&context).unwrap();
    let point = parse_ir_struct_decl(&mut ctx, &declaration("struct point { i32 x bool set }")).unwrap();
    let hash = utils_get_hash("point");
    assert!(Rc::ptr_eq(&point, &ctx.type_storage.get(hash).unwrap()));
    let descriptor = point.get_structured_type_descriptor().unwrap();
    assert!(matches!(*point, IRType::Struct(_)));
    assert_eq!(descriptor.name, "point");
    assert_eq!(descriptor.field_to_index.get(utils_get_hash("x")), Some(&0));
    assert_eq!(descriptor.field_to_index.get(utils_get_hash("set")), Some(&1));
    assert!(matches!(*descriptor.field_types[1], IRType::Bool(_)));
    assert_eq!(point.get_bitsize(), 40);

    // The name is taken now, for every kind of declaration.
    assert_eq!(
        parse_ir_struct_decl(&mut ctx, &declaration("layout point { }")).err().unwrap().reason,
        "Cannot use this name for an element. An element named like this already exists!"
    );
    assert!(parse_ir_node_toplevel(&mut ctx, &declaration("func point() { }")).is_err());
    assert_eq!(
        parse_ir_struct_decl(&mut ctx, &declaration("struct other { nothing x }")).err().unwrap().reason,
        "Cannot find said type."
    );
    assert!(ctx.type_storage.get(utils_get_hash("other")).is_none());
    let shape = parse_ir_struct_decl(&mut ctx, &declaration("layout shape { point p }")).unwrap();
    assert!(matches!(*shape, IRType::Layout(_)));
    assert_eq!(shape.get_bitsize(), 40);
    assert_eq!(
        parse_ir_struct_decl(&mut ctx, &statement("var i32 x")).err().unwrap().reason,
        "Cannot use this lowering rule on the given AST node!"
    );

    let mut func = IRFunction::create(&mut ctx.backend, "host".to_string(), None, vec![]).unwrap();
    assert!(func.prepare_body_filling(&mut ctx.backend));
    lower(&mut ctx, &mut func, "var point p");
    let p = func.lctx.get_variable(utils_get_hash("p")).unwrap().ptr;
    let field = parse_ir_value(Some(&func.lctx), &mut ctx, &value("p.set"), None, false).unwrap();
    let to_set = field.as_pointer().unwrap();
    assert!(matches!(*to_set.t, IRType::Bool(_)));
    assert_eq!(
        *ctx.backend.trace().last().unwrap(),
        Instr::FieldPointer { ptr: p, index: 1, dest: to_set.ptr }
    );
    assert_eq!(
        parse_ir_value(Some(&func.lctx), &mut ctx, &value("p.nowhere"), None, false).err().unwrap().reason,
        "Unknown field inside of the current context."
    );
    lower(&mut ctx, &mut func, "var i32 n");
    assert_eq!(
        parse_ir_value(Some(&func.lctx), &mut ctx, &value("n.x"), None, false).err().unwrap().reason,
        "Given IRType doesn't have a structured type descriptor!"
    );
    assert_eq!(
        parse_ir_value(Some(&func.lctx), &mut ctx, &value("p.grow()"), None, false).err().unwrap().reason,
        "Function was not found within the struct!"
    );
    lower(&mut ctx, &mut func, "if (p.set) { }");

    // A chain resolves each name in the instance before it.
    lower(&mut ctx, &mut func, "var shape s");
    let s = func.lctx.get_variable(utils_get_hash("s")).unwrap().ptr;
    let before = ctx.backend.trace().len();
    let inner = parse_ir_value(Some(&func.lctx), &mut ctx, &value("s.p.set"), None, false).unwrap();
    let to_inner = inner.as_pointer().unwrap();
    assert!(matches!(*to_inner.t, IRType::Bool(_)));
    let trace = &ctx.backend.trace()[before..];
    let to_p = match trace[0] {
        Instr::FieldPointer { ptr, index: 0, dest } if ptr == s => dest,
        other => panic!("no field pointer: {:?}", other),
    };
    assert_eq!(
        trace[1..],
        [Instr::FieldPointer { ptr: to_p, index: 1, dest: to_inner.ptr }]
    );
    let llvm = ctx.backend.print();
    assert!(llvm.contains("alloca <{ i32, i1 }>"), "{}", llvm);
    assert!(llvm.contains("getelementptr inbounds <{ i32, i1 }>"), "{}", llvm);
}

#[test]
fn function_declaration_resolves_its_types_first() {
    let context = Context::create();
    let mut ctx = IRContext::new(&context).unwrap();
    let count = ctx.backend.trace().len();
    assert_eq!(
        parse_ir_function_decl(&mut ctx, &declaration("func f(nothing a) { }")).err().unwrap().reason,
        "Cannot find said type."
    );
    assert_eq!(
        parse_ir_function_decl(&mut ctx, &declaration("func f() nothing { }")).err().unwrap().reason,
        "Cannot find said type."
    );
    assert_eq!(
        parse_ir_function_decl(&mut ctx, &declaration("struct s { }")).err().unwrap().reason,
        "Cannot use this lowering rule on the given AST node!"
    );
    assert_eq!(ctx.backend.trace().len(), count);
    assert!(!ctx.is_key_taken(utils_get_hash("f")));

    let f = parse_ir_function_decl(&mut ctx, &declaration("func f(i32 a, bool b) i32 { }")).unwrap();
    assert_eq!(f.args.len(), 2);
    assert!(matches!(*f.args[0], IRType::Signed32(_)));
    assert!(matches!(*f.args[1], IRType::Bool(_)));
    assert!(matches!(**f.ret_type.as_ref().unwrap(), IRType::Signed32(_)));
    assert!(f.entry.is_some());
    assert!(Rc::ptr_eq(&f, &ctx.get_funtion(utils_get_hash("f")).unwrap()));
    // With a return type no return is added.
    assert!(!matches!(*ctx.backend.trace().last().unwrap(), Instr::Return { .. }));
    // A body that fails leaves the name free.
    assert!(parse_ir_function_decl(&mut ctx, &declaration("func g() { missing += 1 }")).is_err());
    assert!(!ctx.is_key_taken(utils_get_hash("g")));
    assert_eq!(
        parse_ir_node_toplevel(&mut ctx, &ASTTreeNode::IntegerLit(1)).unwrap_err().reason,
        "Invalid AST tree node in AST tree! Got node {}.\nPlease send a bug report at https://github.com/quickfall/quickfall"
    );
}

#[test]
fn static_variables_are_declared_at_the_top_level() {
    let context = Context::create();
    let mut ctx = IRContext::new(&context).unwrap();
    let number = ASTTreeNode::StaticVariableDeclaration {
        name: WithHash::new("limit".to_string()),
        var_type: SIGNED64_TYPE_HASH,
        val: value("10"),
    };
    assert_eq!(parse_ir_node_toplevel(&mut ctx, &number).unwrap(), true);
    let limit = ctx.get_variable(utils_get_hash("limit")).unwrap();
    assert!(limit.is_compiletime_replaceable());
    assert!(parse_ir_node_toplevel(&mut ctx, &number).is_err());

    let text = |name: &str, var_type: u64| ASTTreeNode::StaticVariableDeclaration {
        name: WithHash::new(name.to_string()),
        var_type,
        val: value("\"hello\""),
    };
    assert_eq!(parse_ir_node_toplevel(&mut ctx, &text("greeting", utils_get_hash("staticstr"))).unwrap(), true);
    assert!(!ctx.get_variable(utils_get_hash("greeting")).unwrap().is_compiletime_replaceable());
    assert_eq!(
        parse_ir_node_toplevel(&mut ctx, &text("wrong", BOOL_TYPE_HASH)).unwrap_err().reason,
        "Expected type staticstr for static string variable values. Change the type of this variable to staticstr"
    );
    assert_eq!(
        parse_ir_node_toplevel(&mut ctx, &text("untyped", 1)).unwrap_err().reason,
        "Cannot find said type."
    );

    // A static variable is found before a local one of the same name.
    let mut func = IRFunction::create(&mut ctx.backend, "host".to_string(), None, vec![]).unwrap();
    assert!(func.prepare_body_filling(&mut ctx.backend));
    lower(&mut ctx, &mut func, "var i32 limit = 1");
    let found = get_variable_ref(&func.lctx, &ctx, utils_get_hash("limit")).unwrap();
    assert!(matches!(found.kind, IRValueRefKind::Global(_, _)));
    let llvm = ctx.backend.print();
    assert!(llvm.contains("@greeting = private unnamed_addr constant [8 x i8]"), "{}", llvm);
}

#[test]
fn function_declaration_records_its_head_its_entry_and_the_implicit_return() {
    let context = Context::create();
    let mut ctx = IRContext::new(&context).unwrap();
    let before = ctx.backend.trace().len();
    let blocks = ctx.backend.blocks_issued();
    let f = parse_ir_function_decl(&mut ctx, &declaration("func f(i32 a, bool b) { }")).unwrap();
    let entry = BlockHandle { index: blocks };
    assert_eq!(f.entry, Some(entry));
    assert_eq!(f.lctx.current_depth, -1);
    assert_eq!(
        ctx.backend.trace()[before..].to_vec(),
        vec![
            Instr::Parameter { ty: f.args[0].get_inkwell_basetype() },
            Instr::Parameter { ty: f.args[1].get_inkwell_basetype() },
            Instr::Function { params: 2, ret: None, dest: f.func },
            Instr::Block { func: f.func, dest: entry },
            Instr::Position { block: entry },
            Instr::Return { value: None },
        ]
    );

    // A body that ends in a return gets no second one, and a shadow
    // declaration records its head only.
    let before = ctx.backend.trace().len();
    let g = parse_ir_function_decl(&mut ctx, &ASTTreeNode::FunctionDeclaration {
        func_name: WithHash::new("g".to_string()),
        args: vec![],
        body: vec![Box::new(ASTTreeNode::ReturnStatement { val: None })],
        returnType: None,
    })
    .unwrap();
    let entry = BlockHandle { index: blocks + 1 };
    assert_eq!(
        ctx.backend.trace()[before..].to_vec(),
        vec![
            Instr::Function { params: 0, ret: None, dest: g.func },
            Instr::Block { func: g.func, dest: entry },
            Instr::Position { block: entry },
            Instr::Return { value: None },
        ]
    );
    let before = ctx.backend.trace().len();
    let h = parse_ir_shadow_function_decl(&mut ctx, &ASTTreeNode::ShadowFunctionDeclaration {
        func_name: WithHash::new("h".to_string()),
        args: vec![],
        returnType: Some(SIGNED32_TYPE_HASH),
    })
    .unwrap();
    assert_eq!(
        ctx.backend.trace()[before..].to_vec(),
        vec![Instr::Function {
            params: 0,
            ret: Some(h.ret_type.as_ref().unwrap().get_inkwell_basetype()),
            dest: h.func,
        }]
    );
}

#[test]
fn declarations_of_a_file_are_lowered_in_their_order() {
    let context = Context::create();
    let mut ctx = IRContext::new(&context).unwrap();
    let tokens = lexer_parse_text(
        "struct point {\n  i32 x\n  bool set\n}\nfunc first() {\n}\nfunc second() {\n  first()\n}\n",
        "order.qf",
    )
    .unwrap();
    let parsed = parse_ast_ctx(&tokens).unwrap();
    assert_eq!(
        parsed.iter_order,
        vec!["point".to_string(), "first".to_string(), "second".to_string()]
    );
    assert_eq!(lower_declarations(&mut ctx, &parsed).unwrap(), true);
    assert!(ctx.type_storage.get(utils_get_hash("point")).is_some());
    let first = ctx.get_funtion(utils_get_hash("first")).unwrap();
    let second = ctx.get_funtion(utils_get_hash("second")).unwrap();
    assert_eq!(first.func.index + 1, second.func.index);
    let llvm = ctx.backend.print();
    assert!(llvm.contains("call void @first()"), "{}", llvm);

    // A function that is called before it is declared is not found, and the
    // pass ends there: what follows is not lowered.
    let mut ctx = IRContext::new(&context).unwrap();
    let tokens = lexer_parse_text(
        "func second() {\n  first()\n}\nfunc first() {\n}\n",
        "order.qf",
    )
    .unwrap();
    let parsed = parse_ast_ctx(&tokens).unwrap();
    assert_eq!(
        lower_declarations(&mut ctx, &parsed).unwrap_err().reason,
        "Cannot find function in the current context."
    );
    assert!(!ctx.is_key_taken(utils_get_hash("first")));
    assert!(!ctx.is_key_taken(utils_get_hash("second")));

    // A name of the order without a declaration ends the pass too.
    let mut ctx = IRContext::new(&context).unwrap();
    let mut parsed = ParserCtx::new();
    parsed.iter_order.push("ghost".to_string());
    assert_eq!(
        lower_declarations(&mut ctx, &parsed).unwrap_err().reason,
        "No declaration stands under this name."
    );
    assert_eq!(lower_declarations(&mut ctx, &ParserCtx::new()).unwrap(), true);
}

#[test]
fn lowering_of_nothing_builds_nothing() {
    let context = Context::create();
    let (mut ctx, mut func) = in_a_function(&context);
    let before = ctx.backend.trace().len();
    assert_eq!(parse_ir_body(&mut ctx, &mut func, &vec![], false).unwrap(), true);
    assert_eq!(func.lctx.current_depth, 0);
    assert!(parse_ir_values(Some(&func.lctx), &mut ctx, &vec![], None, false).unwrap().is_empty());
    assert_eq!(ctx.backend.trace().len(), before);

    // What may not stand in a body, or is no value, fails before anything is
    // built.
    assert_eq!(
        parse_ir_body(&mut ctx, &mut func, &vec![Box::new(ASTTreeNode::IntegerLit(1))], false)
            .unwrap_err()
            .reason,
        "Cannot parse said ASTNode as a function body member!"
    );
    assert_eq!(
        parse_ir_body(&mut ctx, &mut func, &vec![value("1 + 2")], false).unwrap_err().reason,
        "This context enforces the usage of assigments in math operations. Please remove this operation or make it assigned"
    );
    assert_eq!(
        parse_ir_values(Some(&func.lctx), &mut ctx, &vec![statement("var i32 x")], None, false)
            .err()
            .unwrap()
            .reason,
        "The given node cannot be parsed as a value!"
    );
    assert_eq!(
        parse_ir_values(Some(&func.lctx), &mut ctx, &vec![value("missing")], None, false)
            .err()
            .unwrap()
            .reason,
        "Cannot find variable in the current context."
    );
    assert_eq!(ctx.backend.trace().len(), before);

    // A static variable declared with text is decided by the context alone.
    let text = |name: &str, var_type: u64| ASTTreeNode::StaticVariableDeclaration {
        name: WithHash::new(name.to_string()),
        var_type,
        val: value("\"hello\""),
    };
    assert_eq!(parse_ir_node_toplevel(&mut ctx, &text("greeting", utils_get_hash("staticstr"))).unwrap(), true);
    assert_eq!(
        parse_ir_node_toplevel(&mut ctx, &text("greeting", utils_get_hash("staticstr")))
            .unwrap_err()
            .reason,
        "Cannot use this name for an element. An element named like this already exists!"
    );
}

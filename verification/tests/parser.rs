use quickfall::lexer::lexer::lexer_parse_text;
use quickfall::lexer::token::LexerToken;
use quickfall::lexer::toks::comp::ComparingOperator;
use quickfall::lexer::toks::math::MathOperator;
use quickfall::parser::ast::cond::operators::{parse_condition_operator, ConditionOperator};
use quickfall::parser::ast::cond::parse_condition_seperator;
use quickfall::parser::ast::control::forloop::parse_for_loop;
use quickfall::parser::ast::control::ifelse::{
    parse_condition_member, parse_else_statement, parse_if_statement,
};
use quickfall::parser::ast::control::whileblock::parse_while_block;
use quickfall::parser::ast::func::call::parse_function_call;
use quickfall::parser::ast::func::decl::{
    parse_function_declaraction, parse_shadow_function_declaration,
};
use quickfall::parser::ast::func::{parse_function_arguments, parse_node_body};
use quickfall::parser::ast::literals::{parse_integer_literal, parse_string_literal};
use quickfall::parser::ast::math::parse_math_operation;
use quickfall::parser::ast::tree::{ASTTreeNode, FunctionDeclarationArgument};
use quickfall::parser::ast::types::{parse_type_declaration, parse_types_field_member};
use quickfall::parser::ast::var::decl::parse_variable_declaration;
use quickfall::parser::ast::var::staticdecl::parse_static_function_declaration;
use quickfall::parser::ast::{
    parse_ast_node, parse_ast_node_in_body, parse_ast_value, parse_ast_value_dotacess,
    parse_ast_value_post_l,
};
use quickfall::parser::ctx::ParserCtx;
use quickfall::parser::parse_ast_ctx;
use quickfall::utils::hash::WithHash;

/// The hash that the library gives to a name.
fn utils_get_hash(name: &str) -> u64 {
    WithHash::new(name.to_string()).hash
}

fn lex(text: &str) -> Vec<LexerToken> {
    lexer_parse_text(text, "p.qf").unwrap()
}

fn var(name: &str) -> Box<ASTTreeNode> {
    Box::new(ASTTreeNode::VariableReference(WithHash::new(name.to_string())))
}

fn lit(v: i64) -> Box<ASTTreeNode> {
    Box::new(ASTTreeNode::IntegerLit(v))
}

#[test]
fn literals() {
    let tokens = lex("12 \"s\" x");
    let mut ind = 0;
    assert_eq!(parse_integer_literal(&tokens, &mut ind).unwrap(), lit(12));
    assert_eq!(ind, 1);
    assert_eq!(
        parse_string_literal(&tokens, &mut ind).unwrap(),
        Box::new(ASTTreeNode::StringLit("\"s\"".to_string()))
    );
    assert_eq!(ind, 2);
    let failed = parse_integer_literal(&tokens, &mut ind).unwrap_err();
    assert_eq!(failed.reason, "Expected int litteral here!");
    assert_eq!(failed.start.col, 8);
    assert_eq!(ind, 2);
    assert_eq!(
        parse_string_literal(&tokens, &mut ind).unwrap_err().reason,
        "Expected string litteral here!"
    );
    let mut past = 9;
    assert!(parse_integer_literal(&tokens, &mut past).is_err());
    assert_eq!(past, 9);
}

#[test]
fn value_with_arithmetic() {
    let tokens = lex("a + 2");
    let mut ind = 0;
    let node = parse_ast_value(&tokens, &mut ind).unwrap();
    assert_eq!(
        node,
        Box::new(ASTTreeNode::MathResult {
            lval: var("a"),
            rval: lit(2),
            operator: MathOperator::ADD,
            assigns: false,
        })
    );
    assert_eq!(ind, 3);
}

#[test]
fn value_with_comparison() {
    let tokens = lex("x > 3");
    let mut ind = 0;
    let node = parse_ast_value(&tokens, &mut ind).unwrap();
    assert_eq!(
        node,
        Box::new(ASTTreeNode::OperatorBasedConditionMember {
            lval: var("x"),
            rval: lit(3),
            operator: ComparingOperator::Higher,
        })
    );
    assert_eq!(ind, 3);
}

#[test]
fn negation_takes_a_variable_or_a_call() {
    let tokens = lex("!done !5");
    let mut ind = 0;
    assert_eq!(
        parse_ast_value(&tokens, &mut ind).unwrap(),
        Box::new(ASTTreeNode::BooleanBasedConditionMember { val: var("done"), negate: true })
    );
    assert_eq!(ind, 2);
    let failed = parse_ast_value(&tokens, &mut ind).unwrap_err();
    assert_eq!(failed.reason, "Boolean negative requires either func or var access!");
}

#[test]
fn value_refuses_other_tokens() {
    let tokens = lex("} x");
    let mut ind = 0;
    let failed = parse_ast_value(&tokens, &mut ind).unwrap_err();
    assert_eq!(failed.reason, "Invalid token to parse as a value!");
    assert_eq!(ind, 0);
}

#[test]
fn dot_access_to_a_field_and_to_a_member_function() {
    let tokens = lex("p.x p.len(1)");
    let mut ind = 0;
    assert_eq!(
        parse_ast_value(&tokens, &mut ind).unwrap(),
        Box::new(ASTTreeNode::StructLRVariable { l: var("p"), r: var("x") })
    );
    assert_eq!(ind, 3);
    assert_eq!(
        parse_ast_value(&tokens, &mut ind).unwrap(),
        Box::new(ASTTreeNode::StructLRFunction {
            l: var("p"),
            r: Box::new(ASTTreeNode::FunctionCall {
                func: WithHash::new("len".to_string()),
                args: vec![lit(1)],
            }),
        })
    );
    assert_eq!(ind, 9);
}

#[test]
fn dot_access_needs_a_variable_or_a_call_on_its_left() {
    let tokens = lex(". x");
    let mut ind = 0;
    let failed = parse_ast_value_dotacess(&tokens, &mut ind, Ok(lit(1))).unwrap_err();
    assert_eq!(failed.reason, "Invalid dot access token!");
    let mut ind = 1;
    assert_eq!(parse_ast_value_dotacess(&tokens, &mut ind, Ok(lit(1))).unwrap(), lit(1));
    assert_eq!(ind, 1);
    let mut ind = 0;
    let failed = parse_ast_value_dotacess(&lex(". 5"), &mut ind, Ok(var("p"))).unwrap_err();
    assert_eq!(failed.reason, "Invalid token type to use dot access!");
}

#[test]
fn what_follows_a_value() {
    let tokens = lex("+= 1 x");
    let mut ind = 0;
    assert_eq!(
        parse_ast_value_post_l(&tokens, &mut ind, Ok(var("a")), true).unwrap(),
        Box::new(ASTTreeNode::MathResult {
            lval: var("a"),
            rval: lit(1),
            operator: MathOperator::ADD,
            assigns: true,
        })
    );
    assert_eq!(ind, 2);
    assert_eq!(parse_ast_value_post_l(&tokens, &mut ind, Ok(var("a")), true).unwrap(), var("a"));
    assert_eq!(ind, 2);
    let tokens = lex("+ 1");
    let mut ind = 0;
    let failed = parse_ast_value_post_l(&tokens, &mut ind, Ok(var("a")), true).unwrap_err();
    assert_eq!(failed.reason, "Using math operation without assigments is forbidden here!");
    assert_eq!(ind, 0);
}

#[test]
fn math_operation_needs_an_operator() {
    let tokens = lex("x 1");
    let mut ind = 0;
    let failed = parse_math_operation(&tokens, &mut ind, var("a"), false).unwrap_err();
    assert_eq!(failed.reason, "Expected math operator here!");
    let tokens = lex("* 4");
    let mut ind = 0;
    assert_eq!(
        parse_math_operation(&tokens, &mut ind, var("a"), false).unwrap(),
        Box::new(ASTTreeNode::MathResult {
            lval: var("a"),
            rval: lit(4),
            operator: MathOperator::MULTIPLY,
            assigns: false,
        })
    );
}

#[test]
fn call_with_arguments() {
    let tokens = lex("f(1, x, g())");
    let mut ind = 0;
    assert_eq!(
        parse_function_call(&tokens, &mut ind).unwrap(),
        Box::new(ASTTreeNode::FunctionCall {
            func: WithHash::new("f".to_string()),
            args: vec![
                lit(1),
                var("x"),
                Box::new(ASTTreeNode::FunctionCall {
                    func: WithHash::new("g".to_string()),
                    args: vec![],
                }),
            ],
        })
    );
    assert_eq!(ind, 10);
    let mut ind = 0;
    let failed = parse_function_call(&lex("f(1 2)"), &mut ind).unwrap_err();
    assert_eq!(failed.reason, "Arguments must be seperated with commas");
    let mut ind = 0;
    assert_eq!(parse_function_call(&lex("(1)"), &mut ind).unwrap_err().reason, "Expected keyword here!");
    assert_eq!(ind, 0);
}

#[test]
fn parameters_of_a_declaration() {
    let tokens = lex("(i32 a, bool b)");
    let mut ind = 0;
    let args = parse_function_arguments(&tokens, &mut ind).unwrap();
    assert_eq!(
        args,
        vec![
            FunctionDeclarationArgument::new("a".to_string(), utils_get_hash("i32")),
            FunctionDeclarationArgument::new("b".to_string(), utils_get_hash("bool")),
        ]
    );
    assert_eq!(ind, 6);
    let mut ind = 0;
    assert_eq!(parse_function_arguments(&lex("()"), &mut ind).unwrap(), vec![]);
    assert_eq!(ind, 1);
    let mut ind = 0;
    let failed = parse_function_arguments(&lex("(i32 a {"), &mut ind).unwrap_err();
    assert_eq!(failed.reason, "Arguments must end with a paren close!");
}

#[test]
fn variable_declaration() {
    let tokens = lex("var i32 x = 5 var bool b");
    let mut ind = 0;
    assert_eq!(
        parse_variable_declaration(&tokens, &mut ind).unwrap(),
        Box::new(ASTTreeNode::VarDeclaration {
            var_name: WithHash::new("x".to_string()),
            var_type: utils_get_hash("i32"),
            value: Some(lit(5)),
        })
    );
    assert_eq!(ind, 5);
    assert_eq!(
        parse_variable_declaration(&tokens, &mut ind).unwrap(),
        Box::new(ASTTreeNode::VarDeclaration {
            var_name: WithHash::new("b".to_string()),
            var_type: utils_get_hash("bool"),
            value: None,
        })
    );
    assert_eq!(ind, 8);
    let mut ind = 0;
    assert_eq!(
        parse_variable_declaration(&lex("var 5"), &mut ind).unwrap_err().reason,
        "Expected keyword here!"
    );
}

#[test]
fn static_declaration() {
    let tokens = lex("static staticstr greeting = \"hi\"");
    let mut ind = 0;
    assert_eq!(
        parse_static_function_declaration(&tokens, &mut ind).unwrap(),
        Box::new(ASTTreeNode::StaticVariableDeclaration {
            name: WithHash::new("greeting".to_string()),
            var_type: utils_get_hash("staticstr"),
            val: Box::new(ASTTreeNode::StringLit("\"hi\"".to_string())),
        })
    );
    assert_eq!(ind, 5);
    let mut ind = 0;
    assert_eq!(
        parse_static_function_declaration(&lex("static i32 x 5"), &mut ind).unwrap_err().reason,
        "Expected a {} but got a {}"
    );
}

#[test]
fn body_runs_to_its_closing_bracket() {
    let tokens = lex("{ var i32 x = 1 x += 2 }");
    let mut ind = 0;
    let body = parse_node_body(&tokens, &mut ind).unwrap();
    assert_eq!(body.len(), 2);
    assert_eq!(ind, 9);
    assert_eq!(
        body[1],
        Box::new(ASTTreeNode::MathResult {
            lval: var("x"),
            rval: lit(2),
            operator: MathOperator::ADD,
            assigns: true,
        })
    );
    // The end of the file closes a body that is still open.
    let mut ind = 0;
    let open = parse_node_body(&lex("{ var i32 x"), &mut ind).unwrap();
    assert_eq!(open.len(), 1);
    assert_eq!(ind, 4);
    let mut ind = 0;
    assert!(parse_node_body(&lex("{"), &mut ind).unwrap().is_empty());
    assert_eq!(ind, 1);
    let nested = lex("func f ( ) { if ( x ) { var i32 y");
    let mut ind = 0;
    assert!(parse_function_declaraction(&nested, &mut ind).is_ok());
    assert_eq!(ind, nested.len() - 1);
    assert_eq!(parse_ast_ctx(&nested).unwrap().iter_order, vec!["f".to_string()]);
    // Without that token the body runs out of tokens.
    let mut cut = lex("{ var i32 x");
    cut.pop();
    let mut ind = 0;
    let open = parse_node_body(&cut, &mut ind).unwrap_err();
    assert_eq!(open.reason, "Unexpected end of the token stream!");
    let mut ind = 0;
    assert_eq!(
        parse_node_body(&lex("var"), &mut ind).unwrap_err().reason,
        "Expected a {} but got a {}"
    );
    assert_eq!(ind, 0);
}

#[test]
fn condition_in_parentheses() {
    let tokens = lex("(a == 1)");
    let mut ind = 0;
    assert_eq!(
        parse_condition_member(&tokens, &mut ind).unwrap(),
        Box::new(ASTTreeNode::OperatorBasedConditionMember {
            lval: var("a"),
            rval: lit(1),
            operator: ComparingOperator::Equal,
        })
    );
    assert_eq!(ind, 5);
    let mut ind = 0;
    assert!(parse_condition_member(&lex("(a == 1 {"), &mut ind).is_err());
}

#[test]
fn if_with_else_if_and_else() {
    let tokens = lex("if (a) { f() } else if (b) { g() } else { h() }");
    let mut ind = 0;
    let node = parse_if_statement(&tokens, &mut ind).unwrap();
    assert_eq!(ind, tokens.len() - 2);
    let call = |name: &str| {
        Box::new(ASTTreeNode::FunctionCall { func: WithHash::new(name.to_string()), args: vec![] })
    };
    assert_eq!(
        node,
        Box::new(ASTTreeNode::IfStatement {
            cond: var("a"),
            body: vec![call("f")],
            else_statement: Some(Box::new(ASTTreeNode::IfElseStatement {
                cond: Some(var("b")),
                body: vec![call("g")],
                else_statement: Some(Box::new(ASTTreeNode::ElseStatement { body: vec![call("h")] })),
            })),
            depth: 0,
        })
    );
}

#[test]
fn else_alone() {
    let tokens = lex("else { }");
    let mut ind = 0;
    assert_eq!(
        parse_else_statement(&tokens, &mut ind).unwrap(),
        Box::new(ASTTreeNode::ElseStatement { body: vec![] })
    );
    assert_eq!(ind, 2);
}

#[test]
fn while_block() {
    let tokens = lex("while (n < 10) { n += 1 }");
    let mut ind = 0;
    let node = parse_while_block(&tokens, &mut ind).unwrap();
    assert_eq!(ind, tokens.len() - 2);
    match *node {
        ASTTreeNode::WhileBlock { cond, body } => {
            assert_eq!(
                cond,
                Box::new(ASTTreeNode::OperatorBasedConditionMember {
                    lval: var("n"),
                    rval: lit(10),
                    operator: ComparingOperator::Lower,
                })
            );
            assert_eq!(body.len(), 1);
        }
        other => panic!("not a while: {:?}", other),
    }
}

#[test]
fn for_loop() {
    let tokens = lex("for (i32 i = 0, i < 3, i += 1) { f(i) }");
    let mut ind = 0;
    let node = parse_for_loop(&tokens, &mut ind).unwrap();
    assert_eq!(ind, tokens.len() - 2);
    match *node {
        ASTTreeNode::ForBlock { initial_state, cond, increment, body } => {
            assert_eq!(
                initial_state,
                Box::new(ASTTreeNode::VarDeclaration {
                    var_name: WithHash::new("i".to_string()),
                    var_type: utils_get_hash("i32"),
                    value: Some(lit(0)),
                })
            );
            assert_eq!(
                cond,
                Box::new(ASTTreeNode::OperatorBasedConditionMember {
                    lval: var("i"),
                    rval: lit(3),
                    operator: ComparingOperator::Lower,
                })
            );
            assert_eq!(
                increment,
                Box::new(ASTTreeNode::MathResult {
                    lval: var("i"),
                    rval: lit(1),
                    operator: MathOperator::ADD,
                    assigns: true,
                })
            );
            assert_eq!(body.len(), 1);
        }
        other => panic!("not a for: {:?}", other),
    }
    let mut ind = 0;
    assert_eq!(
        parse_for_loop(&lex("for (i32 i = 0 i < 3)"), &mut ind).unwrap_err().reason,
        "Requires for bodies to seperated by commas!"
    );
}

#[test]
fn function_declarations() {
    let tokens = lex("func add(i32 a, i32 b) i32 { a + b }");
    let mut ind = 0;
    // Arithmetic that does not assign may not stand as a statement.
    assert!(parse_function_declaraction(&tokens, &mut ind).is_err());

    let tokens = lex("func run(i32 a) { a += 1 }");
    let mut ind = 0;
    let node = parse_function_declaraction(&tokens, &mut ind).unwrap();
    assert_eq!(ind, tokens.len() - 2);
    assert!(node.is_tree_permissible());
    assert_eq!(node.get_tree_name().unwrap(), WithHash::new("run".to_string()));
    match *node {
        ASTTreeNode::FunctionDeclaration { func_name, args, body, returnType } => {
            assert_eq!(func_name.val, "run");
            assert_eq!(args, vec![FunctionDeclarationArgument::new("a".to_string(), utils_get_hash("i32"))]);
            assert_eq!(body.len(), 1);
            assert_eq!(returnType, None);
        }
        other => panic!("not a function: {:?}", other),
    }

    let tokens = lex("shadow printf(ptr fmt) i32");
    let mut ind = 0;
    let node = parse_shadow_function_declaration(&tokens, &mut ind).unwrap();
    assert_eq!(ind, 7);
    assert_eq!(
        node,
        Box::new(ASTTreeNode::ShadowFunctionDeclaration {
            func_name: WithHash::new("printf".to_string()),
            args: vec![FunctionDeclarationArgument::new("fmt".to_string(), utils_get_hash("ptr"))],
            returnType: Some(utils_get_hash("i32")),
        })
    );
}

#[test]
fn struct_and_layout_declarations() {
    let tokens = lex("struct point { i32 x i32 y } layout flags { bool on }");
    let mut ind = 0;
    let point = parse_ast_node(&tokens, &mut ind).unwrap();
    assert_eq!(ind, 7);
    assert_eq!(
        point,
        Box::new(ASTTreeNode::StructLayoutDeclaration {
            name: WithHash::new("point".to_string()),
            layout: false,
            members: vec![
                Box::new(ASTTreeNode::StructFieldMember {
                    name: WithHash::new("x".to_string()),
                    member_type: utils_get_hash("i32"),
                }),
                Box::new(ASTTreeNode::StructFieldMember {
                    name: WithHash::new("y".to_string()),
                    member_type: utils_get_hash("i32"),
                }),
            ],
        })
    );
    // The index is on the closing bracket: the next declaration starts after it.
    ind += 1;
    let flags = parse_type_declaration(&tokens, &mut ind, true).unwrap();
    assert_eq!(ind, 13);
    match *flags {
        ASTTreeNode::StructLayoutDeclaration { layout, members, .. } => {
            assert!(layout);
            assert_eq!(members.len(), 1);
        }
        other => panic!("not a layout: {:?}", other),
    }
    let mut ind = 0;
    assert_eq!(
        parse_types_field_member(&lex("i32 }"), &mut ind).unwrap_err().reason,
        "Expected keyword here!"
    );
}

#[test]
fn top_level_takes_declarations_only() {
    let mut ind = 0;
    let failed = parse_ast_node(&lex("var i32 x"), &mut ind).unwrap_err();
    assert_eq!(failed.reason, "Expected valid token type in this context!");
    assert_eq!(ind, 0);
    let mut ind = 0;
    let failed = parse_ast_node_in_body(&lex("func f() { }"), &mut ind).unwrap_err();
    assert_eq!(failed.reason, "Expected valid token type in this context!");
}

#[test]
fn members_of_a_body() {
    let tokens = lex("var i32 x if (x) { } f() x -= 1");
    let mut ind = 0;
    assert!(matches!(*parse_ast_node_in_body(&tokens, &mut ind).unwrap(), ASTTreeNode::VarDeclaration { .. }));
    assert!(matches!(*parse_ast_node_in_body(&tokens, &mut ind).unwrap(), ASTTreeNode::IfStatement { .. }));
    // The `if` left the index on its closing bracket.
    assert_eq!(ind, 8);
    ind += 1;
    assert!(matches!(*parse_ast_node_in_body(&tokens, &mut ind).unwrap(), ASTTreeNode::FunctionCall { .. }));
    assert!(matches!(*parse_ast_node_in_body(&tokens, &mut ind).unwrap(), ASTTreeNode::MathResult { .. }));
    assert_eq!(ind, tokens.len() - 1);
}

#[test]
fn condition_operators_and_separator() {
    let tokens = lex("a & b");
    let mut ind = 0;
    assert_eq!(parse_condition_seperator(&tokens, &mut ind).unwrap(), true);
    assert_eq!(ind, 1);
    assert_eq!(
        parse_condition_seperator(&tokens, &mut ind).unwrap_err().reason,
        "Given pattern is not a condition seperator!"
    );
    // The scanner joins `==` into one comparing token, so the two-token
    // spelling is made of tokens by hand.
    let mut equal = lex("= =");
    equal.truncate(2);
    let mut ind = 0;
    assert_eq!(parse_condition_operator(&equal, &mut ind).unwrap(), ConditionOperator::EQUAL);
    assert_eq!(ind, 1);
    let mut ind = 0;
    assert_eq!(
        parse_condition_operator(&lex("= x"), &mut ind).unwrap_err().reason,
        "Token doesn't make a valid condition operator"
    );
    let mut ind = 0;
    assert_eq!(parse_condition_operator(&lex("! ="), &mut ind).unwrap(), ConditionOperator::NOT_EQUAL);
}

#[test]
fn file_of_declarations() {
    let tokens = lex("struct point { i32 x }\nfunc main() { var i32 x = 5 }\n");
    let ctx = parse_ast_ctx(&tokens).unwrap();
    assert_eq!(ctx.iter_order, vec!["point".to_string(), "main".to_string()]);
    assert!(matches!(**ctx.get("point").unwrap(), ASTTreeNode::StructLayoutDeclaration { .. }));
    assert!(matches!(**ctx.get("main").unwrap(), ASTTreeNode::FunctionDeclaration { .. }));
    assert!(ctx.get("other").is_none());
    assert!(parse_ast_ctx(&lex("")).unwrap().iter_order.is_empty());
    assert_eq!(
        parse_ast_ctx(&lex("var i32 x")).unwrap_err().reason,
        "Expected valid token type in this context!"
    );
}

#[test]
fn parser_ctx_refuses_what_is_no_declaration() {
    let mut ctx = ParserCtx::new();
    assert!(!ctx.insert("x".to_string(), lit(1)));
    assert!(ctx.iter_order.is_empty());
    assert!(ctx.get("x").is_none());
    let decl = Box::new(ASTTreeNode::StructLayoutDeclaration {
        name: WithHash::new("s".to_string()),
        layout: true,
        members: vec![],
    });
    assert!(ctx.insert("s".to_string(), decl));
    assert_eq!(ctx.iter_order, vec!["s".to_string()]);
    assert!(ctx.get("s").is_some());
}

#[test]
fn node_kinds() {
    assert!(var("a").is_var_access());
    assert!(!var("a").is_function_call());
    assert!(!lit(1).is_var_access());
    assert!(!lit(1).is_tree_permissible());
    assert!(lit(1).get_tree_name().is_none());
    let decl = ASTTreeNode::VarDeclaration {
        var_name: WithHash::new("v".to_string()),
        var_type: 1,
        value: None,
    };
    assert_eq!(decl.get_tree_name().unwrap().val, "v");
    assert!(!decl.is_tree_permissible());
    let access = ASTTreeNode::StructLRFunction { l: var("a"), r: var("b") };
    assert!(access.is_function_call());
}

/// Runs a rule on a text from its first token and hands back what it gave,
/// where it left the index, and the tokens.
fn run(
    rule: fn(&Vec<LexerToken>, &mut usize) -> Result<Box<ASTTreeNode>, quickfall::commons::err::PositionedError>,
    text: &str,
) -> (Result<Box<ASTTreeNode>, quickfall::commons::err::PositionedError>, usize, Vec<LexerToken>) {
    let tokens = lex(text);
    let mut ind = 0;
    let r = rule(&tokens, &mut ind);
    (r, ind, tokens)
}

/// Checks that a rule fails on a text at the token at `at`, for `reason`, and
/// leaves the index there.
fn fails_at(
    rule: fn(&Vec<LexerToken>, &mut usize) -> Result<Box<ASTTreeNode>, quickfall::commons::err::PositionedError>,
    text: &str,
    at: usize,
    reason: &str,
) {
    let (r, ind, tokens) = run(rule, text);
    let failed = r.unwrap_err();
    assert_eq!(failed.reason, reason, "{}", text);
    assert_eq!(ind, at, "{}", text);
    assert_eq!(failed.start, tokens[at].pos, "{}", text);
    assert_eq!(failed.end, tokens[at].end_pos, "{}", text);
}

#[test]
fn guarded_rules_are_decided_by_their_first_tokens() {
    let expected = "Expected a {} but got a {}";
    let value = "Invalid token to parse as a value!";
    for rule in [parse_while_block, parse_if_statement] {
        fails_at(rule, "while x", 1, expected);
        fails_at(rule, "while ( )", 2, value);
        fails_at(rule, "while ( x {", 3, expected);
        fails_at(rule, "while ( 1 ) x", 4, expected);
        let (r, ind, _) = run(rule, "while ( x ) { } y");
        assert!(r.is_ok());
        assert_eq!(ind, 5);
    }
    let (r, ind, _) = run(parse_if_statement, "if ( x ) { } else { } y");
    assert!(matches!(*r.unwrap(), ASTTreeNode::IfStatement { else_statement: Some(_), .. }));
    assert_eq!(ind, 8);

    fails_at(parse_else_statement, "else x", 1, expected);
    fails_at(parse_else_statement, "else if x", 2, expected);
    fails_at(parse_else_statement, "else if ( ) ", 3, value);
    let (r, ind, _) = run(parse_else_statement, "else { } y");
    assert_eq!(r.unwrap(), Box::new(ASTTreeNode::ElseStatement { body: vec![] }));
    assert_eq!(ind, 2);
    let (r, ind, _) = run(parse_else_statement, "else if ( 1 ) { } else { }");
    assert!(matches!(*r.unwrap(), ASTTreeNode::IfElseStatement { cond: Some(_), .. }));
    assert_eq!(ind, 9);

    // A rule that is entered where no token stands fails at the last token.
    let tokens = lex("x");
    for rule in [parse_while_block, parse_if_statement, parse_else_statement, parse_for_loop] {
        let mut ind = tokens.len();
        let failed = rule(&tokens, &mut ind).unwrap_err();
        assert_eq!(failed.reason, expected);
        assert_eq!(ind, tokens.len());
        assert_eq!(failed.start, tokens[tokens.len() - 1].pos);
    }
}

#[test]
fn declarations_are_decided_by_their_first_tokens() {
    let expected = "Expected a {} but got a {}";
    let word = "Expected keyword here!";
    let value = "Invalid token to parse as a value!";
    fails_at(parse_variable_declaration, "var 1", 1, word);
    fails_at(parse_variable_declaration, "var i32 1", 2, word);
    fails_at(parse_variable_declaration, "var i32 x = )", 4, value);
    let (r, ind, _) = run(parse_variable_declaration, "var i32 x y");
    assert!(matches!(*r.unwrap(), ASTTreeNode::VarDeclaration { value: None, .. }));
    assert_eq!(ind, 3);
    let (r, ind, _) = run(parse_variable_declaration, "var i32 x = 5 y");
    assert!(matches!(*r.unwrap(), ASTTreeNode::VarDeclaration { value: Some(_), .. }));
    assert_eq!(ind, 5);

    fails_at(parse_static_function_declaration, "static 1", 1, word);
    fails_at(parse_static_function_declaration, "static i32 1", 2, word);
    fails_at(parse_static_function_declaration, "static i32 x 5", 3, expected);
    fails_at(parse_static_function_declaration, "static i32 x = )", 4, value);
    let (r, ind, _) = run(parse_static_function_declaration, "static i32 x = 5 y");
    assert!(r.is_ok());
    assert_eq!(ind, 5);

    fails_at(parse_for_loop, "for x", 1, expected);
    fails_at(parse_for_loop, "for ( 1", 2, word);
    fails_at(parse_for_loop, "for ( i32 1", 3, word);
    fails_at(parse_for_loop, "for ( i32 i )", 4, "Requires for bodies to seperated by commas!");
    fails_at(parse_for_loop, "for ( i32 i = )", 5, value);
    fails_at(parse_for_loop, "for ( i32 i = 0 )", 6, "Requires for bodies to seperated by commas!");
    fails_at(parse_for_loop, "for ( i32 i , )", 5, value);

    fails_at(parse_function_declaraction, "func 1", 1, word);
    fails_at(parse_function_declaraction, "func f {", 2, expected);
    fails_at(parse_function_declaraction, "func f ( 1", 3, "Arguments must end with a paren close!");
    fails_at(parse_function_declaraction, "func f ( ) x", 5, expected);
    fails_at(parse_function_declaraction, "func f ( ) 5", 4, expected);
    let (r, ind, _) = run(parse_function_declaraction, "func f ( ) { } y");
    assert!(matches!(*r.unwrap(), ASTTreeNode::FunctionDeclaration { returnType: None, .. }));
    assert_eq!(ind, 5);
    let (r, ind, _) = run(parse_function_declaraction, "func f ( ) i32 { } y");
    assert!(matches!(*r.unwrap(), ASTTreeNode::FunctionDeclaration { returnType: Some(_), .. }));
    assert_eq!(ind, 6);
}

#[test]
fn type_declaration_is_decided_by_its_tokens() {
    let structure = |tokens: &Vec<LexerToken>, ind: &mut usize| parse_type_declaration(tokens, ind, false);
    fails_at(structure, "struct 1", 1, "Expected keyword here!");
    fails_at(structure, "struct s x", 2, "Expected a {} but got a {}");
    // Where a field breaks off, the rule fails at the place where the word is
    // missing.
    for (text, at) in [("struct s { 1 }", 3), ("struct s { i32 }", 4), ("struct s { i32 x bool 1 }", 6)] {
        let (r, _, tokens) = run(structure, text);
        let failed = r.unwrap_err();
        assert_eq!(failed.reason, "Expected keyword here!", "{}", text);
        assert_eq!(failed.start, tokens[at].pos, "{}", text);
    }
    let (r, ind, _) = run(structure, "struct s { } y");
    assert!(matches!(*r.unwrap(), ASTTreeNode::StructLayoutDeclaration { layout: false, .. }));
    assert_eq!(ind, 3);
    let (r, ind, _) = run(structure, "struct s { i32 x bool set } y");
    match *r.unwrap() {
        ASTTreeNode::StructLayoutDeclaration { members, .. } => assert_eq!(members.len(), 2),
        _ => panic!("no type declaration"),
    }
    assert_eq!(ind, 7);
}

#[test]
fn file_without_declarations_parses_to_nothing() {
    let parsed = parse_ast_ctx(&lex("")).unwrap();
    assert!(parsed.iter_order.is_empty());
    assert!(parsed.map.entries().is_empty());
    let parsed = parse_ast_ctx(&Vec::new()).unwrap();
    assert!(parsed.iter_order.is_empty());
    let tokens = lex("x");
    let failed = parse_ast_ctx(&tokens).unwrap_err();
    assert_eq!(failed.reason, "Expected valid token type in this context!");
    assert_eq!(failed.start, tokens[0].pos);
}

#[test]
fn for_with_plain_parts_and_no_members() {
    for (text, end) in [("for ( i32 i = 0 , i , i ) { } y", 12), ("for ( i32 i , 1 , i ) { } y", 10)] {
        let (r, ind, _) = run(parse_for_loop, text);
        match *r.unwrap() {
            ASTTreeNode::ForBlock { increment, body, .. } => {
                assert_eq!(increment, var("i"));
                assert!(body.is_empty());
            }
            _ => panic!("no for"),
        }
        assert_eq!(ind, end, "{}", text);
    }
    fails_at(parse_for_loop, "for ( i32 i , 1 )", 6, "Requires for bodies to seperated by commas!");
    fails_at(parse_for_loop, "for ( i32 i , 1 , i {", 8, "Expected a {} but got a {}");
    fails_at(parse_for_loop, "for ( i32 i , 1 , i ) x", 9, "Expected a {} but got a {}");
    // A word all by itself is a member of a body.
    let (r, ind, _) = run(parse_ast_node_in_body, "x }");
    assert_eq!(r.unwrap(), var("x"));
    assert_eq!(ind, 1);
}

//! What the library itself decides when it lowers a value.
//!
//! Whether an operation on values succeeds rests on two things: on what the
//! library checks, and on whether the instruction builder builds what it is
//! asked to. What the library checks depends on the kinds and the types of the
//! values alone. This module says, as functions of those, which refusal the
//! library comes to, if any. The operations are held to it: a failure is
//! either the builder's or the refusal that is named here, and where a
//! refusal is named the operation fails.

use vstd::prelude::*;
use std::rc::Rc;
use crate::commons::err::{PositionlessResult, fails_with};
use crate::commons::utils::map::spec_get;
use crate::errors::errors::{AST_INVALID_TREE, IR_ALREADY_EXISTING_ELEM, IR_ALREADY_REGISTERED_VAR, IR_ASSIGN_NOVAR, IR_BODY_MEMBER, IR_FIELD, IR_FIELD_INDEX, IR_FIND_FUNCTION, IR_FIND_PRIMITIVE_TYPE, IR_FIND_TYPE, IR_FIND_VARIABLE, IR_FUNC_VOID_VALUE, IR_INVALID_MATH_VAL, IR_LAYOUT_FUNC_USAGE, IR_MALFORMED_BRANCH, IR_NESTING_DEPTH, IR_NODE_KIND, IR_NOT_INT_TYPE, IR_NOT_POINTER, IR_NOT_SAME_TYPE, IR_NO_DESCRIPTOR, IR_OBTAIN_COND, IR_OBTAIN_TYPE, IR_STATIC_STR_TYPE, IR_STRUCT_FUNCTION, IR_TYPE_SIGNED, IR_VALUE_NODE, IR_VALUE_REF_TEMP_TYPE, MATH_OP_NO_ASSIGN};
use crate::ir::conv::lowered::Env;
use crate::ir::ctx::LocalIRVariable;
use crate::ir::irstruct::funcs::IRFunction;
use crate::ir::refs::{IRValueRef, IRValueRefKind};
use crate::ir::types::typing::{IRType, spec_is_numeric, spec_is_signed, spec_same_type};
use crate::ir::types::{BOOL_TYPE_HASH, POINTER_TYPE_HASH, SIGNED64_TYPE_HASH};
use crate::ir::utils::backend_failed;
use crate::ir::values::spec_is_integral;
use crate::parser::ast::tree::ASTTreeNode;

verus! {

/// Why the library refuses to lower a value.
pub enum Refusal {
    /// The node stands for no value.
    NoValue,
    /// The variable is bound nowhere.
    UnknownVariable,
    /// The type of the instance is no aggregate.
    NoDescriptor,
    /// The aggregate has no field of the name.
    UnknownField,
    /// The field's index lies beyond the fields of the aggregate.
    FieldIndex,
    /// The module has no function of the name.
    UnknownFunction,
    /// A layout has no member functions.
    LayoutFunction,
    /// The struct has no member function of the name.
    UnknownMember,
    /// A primitive type is missing from the registry.
    MissingPrimitive,
    /// The type of integer literals is not signed.
    NotSigned,
    /// The registered boolean type is no integer to the code generator.
    NotInteger,
    /// A string literal that is still text cannot be materialized.
    Text,
    /// A stack location does not hold the type that it is read as.
    Apart,
    /// Arithmetic on what is no number.
    NotNumeric,
    /// An operand that is no integer.
    NotIntegral,
    /// A condition that is no boolean.
    NotBoolean,
    /// Assigning arithmetic whose left side is no stack location.
    NoAssignTarget,
    /// The result of a function that returns nothing.
    Void,
    /// A dot access on what is no stack location.
    NotPointer,
    /// The type of a declaration is not registered.
    UnknownType,
    /// The name of a declaration is bound already.
    Bound,
    /// Arithmetic that does not assign stands as a statement.
    NoAssign,
    /// The node may not stand in a body.
    NoMember,
    /// The branches of an `if` are no chain.
    Malformed,
    /// Bodies are nested too deeply.
    TooDeep,
    /// The name of a declaration is claimed already.
    Taken,
    /// Text is declared under another type than that of static strings.
    NotStaticString,
    /// The node may not stand at the top level.
    NoDeclaration,
    /// The rule is not the rule for the node.
    NoRule,
}

/// Whether a result failed for the reason that a refusal stands for.
pub open spec fn spec_refused<K>(r: PositionlessResult<K>, c: Refusal) -> bool {
    match c {
        Refusal::NoValue => fails_with(r, IR_VALUE_NODE),
        Refusal::UnknownVariable => fails_with(r, IR_FIND_VARIABLE),
        Refusal::NoDescriptor => fails_with(r, IR_NO_DESCRIPTOR),
        Refusal::UnknownField => fails_with(r, IR_FIELD),
        Refusal::FieldIndex => fails_with(r, IR_FIELD_INDEX),
        Refusal::UnknownFunction => fails_with(r, IR_FIND_FUNCTION),
        Refusal::LayoutFunction => fails_with(r, IR_LAYOUT_FUNC_USAGE),
        Refusal::UnknownMember => fails_with(r, IR_STRUCT_FUNCTION),
        Refusal::MissingPrimitive => fails_with(r, IR_FIND_PRIMITIVE_TYPE),
        Refusal::NotSigned => fails_with(r, IR_TYPE_SIGNED),
        Refusal::NotInteger => fails_with(r, IR_NOT_INT_TYPE),
        Refusal::Text => fails_with(r, IR_VALUE_REF_TEMP_TYPE),
        Refusal::Apart => fails_with(r, IR_NOT_SAME_TYPE),
        Refusal::NotNumeric => fails_with(r, IR_INVALID_MATH_VAL),
        Refusal::NotIntegral => fails_with(r, IR_OBTAIN_TYPE),
        Refusal::NotBoolean => fails_with(r, IR_OBTAIN_COND),
        Refusal::NoAssignTarget => fails_with(r, IR_ASSIGN_NOVAR),
        Refusal::Void => fails_with(r, IR_FUNC_VOID_VALUE),
        Refusal::NotPointer => fails_with(r, IR_NOT_POINTER),
        Refusal::UnknownType => fails_with(r, IR_FIND_TYPE),
        Refusal::Bound => fails_with(r, IR_ALREADY_REGISTERED_VAR),
        Refusal::NoAssign => fails_with(r, MATH_OP_NO_ASSIGN),
        Refusal::NoMember => fails_with(r, IR_BODY_MEMBER),
        Refusal::Malformed => fails_with(r, IR_MALFORMED_BRANCH),
        Refusal::TooDeep => fails_with(r, IR_NESTING_DEPTH),
        Refusal::Taken => fails_with(r, IR_ALREADY_EXISTING_ELEM),
        Refusal::NotStaticString => fails_with(r, IR_STATIC_STR_TYPE),
        Refusal::NoDeclaration => fails_with(r, AST_INVALID_TREE),
        Refusal::NoRule => fails_with(r, IR_NODE_KIND),
    }
}

/// Whether a result agrees with what the library decides. Where the library
/// refuses, the result is an error: a failure of the instruction builder, or
/// the error of the refusal. Where it does not refuse, an error is a failure
/// of the instruction builder.
pub open spec fn spec_settled<K>(r: PositionlessResult<K>, refusal: Option<Refusal>) -> bool {
    match refusal {
        Some(c) => r is Err && (backend_failed(r) || spec_refused(r, c)),
        None => r is Err ==> backend_failed(r),
    }
}

/// How a value is held.
pub enum Held {
    /// In a stack location.
    Location,
    /// As a materialized value.
    Value,
    /// In a static variable.
    Global,
    /// As the text of a string literal.
    Text,
}

/// What the library's checks read of a value reference: how the value is
/// held, its type, and whether a stack location is read as another type than
/// it holds.
pub struct Shape {
    pub held: Held,
    pub t: Option<Rc<IRType>>,
    pub apart: bool,
}

/// The shape of a value reference.
pub open spec fn spec_shape_of(r: IRValueRef) -> Shape {
    match r.kind {
        IRValueRefKind::Ptr(t, p) => Shape {
            held: Held::Location,
            t: Some(t),
            apart: !spec_same_type(*p.t, *t),
        },
        IRValueRefKind::Val(v) => Shape { held: Held::Value, t: Some(v.t), apart: false },
        IRValueRefKind::Global(t, _) => Shape { held: Held::Global, t: Some(t), apart: false },
        IRValueRefKind::TempString(_) => Shape { held: Held::Text, t: None, apart: false },
    }
}

/// The shapes of a list of value references.
pub open spec fn spec_shapes_of(refs: Seq<IRValueRef>) -> Seq<Shape> {
    Seq::new(refs.len(), |i: int| spec_shape_of(refs[i]))
}

/// Materializing: text is refused, and so is a stack location that is read
/// as another type than it holds.
pub open spec fn spec_obtain_refusal(s: Shape) -> Option<Refusal> {
    if s.held is Text {
        Some(Refusal::Text)
    } else if s.held is Location && s.apart {
        Some(Refusal::Apart)
    } else {
        None
    }
}

/// Negating: the operand is materialized, must be a boolean, and the boolean
/// type must be registered and an integer to the code generator.
pub open spec fn spec_xor_refusal(types: Map<u64, Rc<IRType>>, s: Shape) -> Option<Refusal> {
    if spec_obtain_refusal(s) is Some {
        spec_obtain_refusal(s)
    } else if !(*s.t->Some_0 is Bool) {
        Some(Refusal::NotBoolean)
    } else if !types.contains_key(BOOL_TYPE_HASH) {
        Some(Refusal::MissingPrimitive)
    } else if !spec_is_integral(*types[BOOL_TYPE_HASH]) {
        Some(Refusal::NotInteger)
    } else {
        None
    }
}

/// Comparing: both operands are materialized, the boolean type must be
/// registered, and both operands must be integers.
pub open spec fn spec_cmp_refusal(types: Map<u64, Rc<IRType>>, a: Shape, b: Shape) -> Option<
    Refusal,
> {
    if spec_obtain_refusal(a) is Some {
        spec_obtain_refusal(a)
    } else if spec_obtain_refusal(b) is Some {
        spec_obtain_refusal(b)
    } else if !types.contains_key(BOOL_TYPE_HASH) {
        Some(Refusal::MissingPrimitive)
    } else if !spec_is_integral(*a.t->Some_0) || !spec_is_integral(*b.t->Some_0) {
        Some(Refusal::NotIntegral)
    } else {
        None
    }
}

/// Arithmetic: the left operand must have a type, which must be a number;
/// both operands are materialized, and the right one must be an integer; the
/// assigning form needs a stack location on its left.
pub open spec fn spec_math_refusal(x: Shape, y: Shape, assigns: bool) -> Option<Refusal> {
    if x.held is Text {
        Some(Refusal::Text)
    } else if !spec_is_numeric(*x.t->Some_0) {
        Some(Refusal::NotNumeric)
    } else if spec_obtain_refusal(x) is Some {
        spec_obtain_refusal(x)
    } else if spec_obtain_refusal(y) is Some {
        spec_obtain_refusal(y)
    } else if !spec_is_integral(*y.t->Some_0) {
        Some(Refusal::NotIntegral)
    } else if assigns && !(x.held is Location) {
        Some(Refusal::NoAssignTarget)
    } else {
        None
    }
}

/// Materializing the arguments of a call, in order: the refusal of the first
/// that is refused.
pub open spec fn spec_arguments_refusal(args: Seq<Shape>) -> Option<Refusal>
    decreases args.len(),
{
    if args.len() == 0 {
        None
    } else if spec_obtain_refusal(args[0]) is Some {
        spec_obtain_refusal(args[0])
    } else {
        spec_arguments_refusal(args.subrange(1, args.len() as int))
    }
}

/// What the library's checks read of a variable of a body: its type and the
/// depth at which it was bound.
pub struct StaticVar {
    pub t: Rc<IRType>,
    pub depth: int,
}

/// What the library's checks read of the variables of a body.
pub open spec fn spec_static_vars(vars: Map<u64, LocalIRVariable>) -> Map<u64, StaticVar> {
    Map::new(
        |h: u64| vars.contains_key(h),
        |h: u64| StaticVar { t: vars[h].ptr.t, depth: vars[h].depth as int },
    )
}

/// The same of variables that may not be there at all.
pub open spec fn spec_static_opt(vars: Option<Map<u64, LocalIRVariable>>) -> Option<
    Map<u64, StaticVar>,
> {
    match vars {
        Some(l) => Some(spec_static_vars(l)),
        None => None,
    }
}

/// What the library comes to for a value: the shape of what it yields, or a
/// refusal.
pub enum Verdict {
    Yields(Shape),
    Refused(Refusal),
}

/// What the library comes to for a list of values: the shapes of what they
/// yield, or the refusal of the first that is refused.
pub enum Verdicts {
    Yield(Seq<Shape>),
    Refused(Refusal),
}

/// A stack location of type `t`, read as what it holds.
pub open spec fn spec_location(t: Rc<IRType>) -> Shape {
    Shape { held: Held::Location, t: Some(t), apart: false }
}

/// A materialized value of type `t`.
pub open spec fn spec_value(t: Rc<IRType>) -> Shape {
    Shape { held: Held::Value, t: Some(t), apart: false }
}

/// The function that a call goes to, or why there is none: without a
/// receiver a function of the module; with one, a member function of the
/// receiver's type, which must be a struct.
pub open spec fn spec_callee_verdict(env: Env, left: Option<Rc<IRType>>, hash: u64) -> Result<
    Rc<IRFunction>,
    Refusal,
> {
    match left {
        None => match spec_get(env.functions, hash) {
            Some(f) => Ok(f),
            None => Err(Refusal::UnknownFunction),
        },
        Some(lt) => if !(*lt is Struct || *lt is Layout) {
            Err(Refusal::NoDescriptor)
        } else {
            let d = if *lt is Struct {
                lt->Struct_0
            } else {
                lt->Layout_0
            };
            if d.is_layout {
                Err(Refusal::LayoutFunction)
            } else {
                match spec_get(d.functions@, hash) {
                    Some(f) => Ok(f),
                    None => Err(Refusal::UnknownMember),
                }
            }
        },
    }
}

/// What a variable resolves to, or why it does not: a field of the instance
/// of type `left`, or, without an instance, a static variable of the module
/// or a variable of the body.
pub open spec fn spec_variable_verdict(
    env: Env,
    vars: Option<Map<u64, StaticVar>>,
    hash: u64,
    left: Option<Rc<IRType>>,
) -> Verdict {
    match left {
        Some(lt) => if !(*lt is Struct || *lt is Layout) {
            Verdict::Refused(Refusal::NoDescriptor)
        } else {
            let d = if *lt is Struct {
                lt->Struct_0
            } else {
                lt->Layout_0
            };
            match spec_get(d.field_to_index@, hash) {
                None => Verdict::Refused(Refusal::UnknownField),
                Some(k) => if k >= d.field_types@.len() {
                    Verdict::Refused(Refusal::FieldIndex)
                } else {
                    Verdict::Yields(spec_location(d.field_types@[k as int]))
                },
            }
        },
        None => match spec_get(env.static_vars, hash) {
            Some(v) => Verdict::Yields(Shape { held: Held::Global, t: Some(v.t), apart: false }),
            None => match vars {
                Some(l) => match spec_get(l, hash) {
                    Some(local) => Verdict::Yields(spec_location(local.t)),
                    None => Verdict::Refused(Refusal::UnknownVariable),
                },
                None => Verdict::Refused(Refusal::UnknownVariable),
            },
        },
    }
}

/// What the library comes to for each node of a list, lowered as values in
/// order.
pub open spec fn spec_values_verdict(
    env: Env,
    vars: Option<Map<u64, StaticVar>>,
    nodes: Seq<Box<ASTTreeNode>>,
    in_decl: bool,
) -> Verdicts
    decreases nodes, 0nat,
{
    if nodes.len() == 0 {
        Verdicts::Yield(Seq::empty())
    } else {
        match spec_value_verdict(env, vars, *nodes[0], None, in_decl) {
            Verdict::Refused(c) => Verdicts::Refused(c),
            Verdict::Yields(first) => match spec_values_verdict(
                env,
                vars,
                nodes.subrange(1, nodes.len() as int),
                in_decl,
            ) {
                Verdicts::Refused(c) => Verdicts::Refused(c),
                Verdicts::Yield(rest) => Verdicts::Yield(seq![first] + rest),
            },
        }
    }
}

/// What the library comes to for a node that is lowered as a value, by the
/// registry, the functions and the variables that are there, and by the type
/// of the instance `left` in which the node is resolved, if there is one.
pub open spec fn spec_value_verdict(
    env: Env,
    vars: Option<Map<u64, StaticVar>>,
    node: ASTTreeNode,
    left: Option<Rc<IRType>>,
    in_decl: bool,
) -> Verdict
    decreases node, 1nat,
{
    match node {
        ASTTreeNode::IntegerLit(_) => match spec_get(env.types, SIGNED64_TYPE_HASH) {
            None => Verdict::Refused(Refusal::MissingPrimitive),
            Some(t) => if !spec_is_signed(*t) {
                Verdict::Refused(Refusal::NotSigned)
            } else {
                Verdict::Yields(spec_value(t))
            },
        },
        ASTTreeNode::StringLit(_) => match spec_get(env.types, POINTER_TYPE_HASH) {
            None => Verdict::Refused(Refusal::MissingPrimitive),
            Some(t) => if in_decl {
                Verdict::Yields(Shape { held: Held::Text, t: None, apart: false })
            } else {
                Verdict::Yields(Shape { held: Held::Global, t: Some(t), apart: false })
            },
        },
        ASTTreeNode::VariableReference(e) => spec_variable_verdict(env, vars, e.hash, left),
        ASTTreeNode::FunctionCall { func, args } => match spec_values_verdict(
            env,
            vars,
            args@,
            in_decl,
        ) {
            Verdicts::Refused(c) => Verdict::Refused(c),
            Verdicts::Yield(shapes) => match spec_callee_verdict(env, left, func.hash) {
                Err(c) => Verdict::Refused(c),
                Ok(f) => {
                    let all = match left {
                        Some(lt) => seq![spec_location(lt)] + shapes,
                        None => shapes,
                    };
                    if spec_arguments_refusal(all) is Some {
                        Verdict::Refused(spec_arguments_refusal(all)->Some_0)
                    } else if f.ret_type is None {
                        Verdict::Refused(Refusal::Void)
                    } else {
                        Verdict::Yields(spec_location(f.ret_type->Some_0))
                    }
                },
            },
        },
        ASTTreeNode::MathResult { lval, rval, operator: _, assigns } => match spec_value_verdict(
            env,
            vars,
            *lval,
            None,
            in_decl,
        ) {
            Verdict::Refused(c) => Verdict::Refused(c),
            Verdict::Yields(x) => match spec_value_verdict(env, vars, *rval, None, in_decl) {
                Verdict::Refused(c) => Verdict::Refused(c),
                Verdict::Yields(y) => if spec_math_refusal(x, y, assigns) is Some {
                    Verdict::Refused(spec_math_refusal(x, y, assigns)->Some_0)
                } else {
                    Verdict::Yields(spec_value(x.t->Some_0))
                },
            },
        },
        ASTTreeNode::OperatorBasedConditionMember { lval, rval, operator: _ } => match spec_value_verdict(
            env,
            vars,
            *lval,
            None,
            in_decl,
        ) {
            Verdict::Refused(c) => Verdict::Refused(c),
            Verdict::Yields(x) => match spec_value_verdict(env, vars, *rval, None, in_decl) {
                Verdict::Refused(c) => Verdict::Refused(c),
                Verdict::Yields(y) => if spec_cmp_refusal(env.types, x, y) is Some {
                    Verdict::Refused(spec_cmp_refusal(env.types, x, y)->Some_0)
                } else {
                    Verdict::Yields(spec_value(env.types[BOOL_TYPE_HASH]))
                },
            },
        },
        ASTTreeNode::BooleanBasedConditionMember { val, negate } => match spec_value_verdict(
            env,
            vars,
            *val,
            None,
            in_decl,
        ) {
            Verdict::Refused(c) => Verdict::Refused(c),
            Verdict::Yields(x) => if !negate {
                Verdict::Yields(x)
            } else if spec_xor_refusal(env.types, x) is Some {
                Verdict::Refused(spec_xor_refusal(env.types, x)->Some_0)
            } else {
                Verdict::Yields(spec_value(env.types[BOOL_TYPE_HASH]))
            },
        },
        ASTTreeNode::StructLRFunction { l, r } => match spec_value_verdict(
            env,
            vars,
            *l,
            left,
            in_decl,
        ) {
            Verdict::Refused(c) => Verdict::Refused(c),
            Verdict::Yields(x) => if !(x.held is Location) {
                Verdict::Refused(Refusal::NotPointer)
            } else {
                spec_value_verdict(env, vars, *r, x.t, in_decl)
            },
        },
        ASTTreeNode::StructLRVariable { l, r } => match spec_value_verdict(
            env,
            vars,
            *l,
            left,
            in_decl,
        ) {
            Verdict::Refused(c) => Verdict::Refused(c),
            Verdict::Yields(x) => if !(x.held is Location) {
                Verdict::Refused(Refusal::NotPointer)
            } else {
                spec_value_verdict(env, vars, *r, x.t, in_decl)
            },
        },
        _ => Verdict::Refused(Refusal::NoValue),
    }
}

/// Whether a value reference to a stack location names the type that the
/// location holds.
pub open spec fn spec_sound(r: IRValueRef) -> bool {
    r.kind matches IRValueRefKind::Ptr(t, p) ==> p.t == t
}

/// Whether a result agrees with a verdict. With a shape for a verdict, a value
/// that is handed back has that shape, and an error is a failure of the
/// instruction builder. With a refusal, the result is an error: a failure of
/// the instruction builder, or the error of the refusal.
pub open spec fn spec_judged(r: PositionlessResult<IRValueRef>, verdict: Verdict) -> bool {
    match verdict {
        Verdict::Yields(shape) => match r {
            Ok(val) => spec_shape_of(val) == shape && spec_sound(val),
            Err(_) => backend_failed(r),
        },
        Verdict::Refused(c) => r is Err && (backend_failed(r) || spec_refused(r, c)),
    }
}

/// The same of a rule for a list of values; `head` holds the shapes of what
/// stands before what the nodes yield.
pub open spec fn spec_judged_each(
    r: PositionlessResult<Vec<IRValueRef>>,
    head: Seq<Shape>,
    verdict: Verdicts,
) -> bool {
    match verdict {
        Verdicts::Yield(shapes) => match r {
            Ok(vals) => spec_shapes_of(vals@) =~= head + shapes,
            Err(_) => backend_failed(r),
        },
        Verdicts::Refused(c) => r is Err && (backend_failed(r) || spec_refused(r, c)),
    }
}

/// Whether the verdict `whole` for a list is the verdict `rest` for what is
/// left of it, after the shapes `done` of what came before.
pub open spec fn spec_verdicts_extend(whole: Verdicts, done: Seq<Shape>, rest: Verdicts) -> bool {
    match rest {
        Verdicts::Refused(c) => whole == Verdicts::Refused(c),
        Verdicts::Yield(more) => whole matches Verdicts::Yield(all) && all =~= done + more,
    }
}

/// The type of the instance behind an optional pointer to one.
pub open spec fn spec_left_type(left: Option<crate::ir::irstruct::ptr::IRPointer>) -> Option<
    Rc<IRType>,
> {
    match left {
        Some(l) => Some(l.t),
        None => None,
    }
}

/// The reason for a name without a declaration is the reason of no refusal
/// that is named here, and of no failure of the builder.
pub proof fn lemma_missing_is_apart<K>(r: PositionlessResult<K>)
    requires
        fails_with(r, crate::errors::errors::IR_MISSING_DECLARATION),
    ensures
        !backend_failed(r),
        forall|c: Refusal| !spec_refused(r, c),
{
    reveal_strlit("No declaration stands under this name.");
    reveal_strlit("Invalid AST tree node in AST tree! Got node {}.\nPlease send a bug report at https://github.com/quickfall/quickfall");
    reveal_strlit("The instruction builder was handed a handle that it did not issue.");
    reveal_strlit("Inkwell function {} failed.\nPlease send a bug report at https://github.com/quickfall/quickfall, err: {}");
    reveal_strlit("Cannot use this name for an element. An element named like this already exists!");
    reveal_strlit("Variable is already registered in the current context.");
    reveal_strlit("Cannot perform math assignment operations if the left value is not a variable.");
    reveal_strlit("Cannot parse said ASTNode as a function body member!");
    reveal_strlit("Unknown field inside of the current context.");
    reveal_strlit("Invalid index given to get_pointer_for_field_index");
    reveal_strlit("Cannot find function in the current context.");
    reveal_strlit("Cannot find said primitive type in the type storage.\nPlease send a bug report at https://github.com/quickfall/quickfall");
    reveal_strlit("Cannot find said type.");
    reveal_strlit("Cannot find variable in the current context.");
    reveal_strlit("Cannot use the result of the function as a value as it is void!");
    reveal_strlit("Cannot perform operations on given values. Cannot use {} as in integer");
    reveal_strlit("Cannot use member functions inside of a layout.\nPlease send a bug report at https://github.com/quickfall/quickfall");
    reveal_strlit("Malformed branch in an if statement.");
    reveal_strlit("Bodies are nested too deeply.");
    reveal_strlit("Cannot use this lowering rule on the given AST node!");
    reveal_strlit("get_inkwell_inttype was used with a non int typed IRType!");
    reveal_strlit("Cannot cast said value reference as a pointer!");
    reveal_strlit("Provided IRType isn't the same!");
    reveal_strlit("Given IRType doesn't have a structured type descriptor!");
    reveal_strlit("Cannot use this value as a condition boolean.");
    reveal_strlit("Cannot use this vaue as a {}");
    reveal_strlit("Expected type staticstr for static string variable values. Change the type of this variable to staticstr");
    reveal_strlit("Function was not found within the struct!");
    reveal_strlit("Expected an unsigned numeric data type. Change the type here.\nPlease send a bug report at https://github.com/quickfall/quickfall");
    reveal_strlit("The given node cannot be parsed as a value!");
    reveal_strlit("Cannot perform this action on the given IR value type.\nPlease send a bug report at https://github.com/quickfall/quickfall");
    reveal_strlit("This context enforces the usage of assigments in math operations. Please remove this operation or make it assigned");
    assert(r->Err_0.reason@.len() == 38);
}

} // verus!

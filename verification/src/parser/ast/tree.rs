//! The nodes of the syntax tree.

use vstd::prelude::*;
use crate::lexer::toks::comp::ComparingOperator;
use crate::lexer::toks::math::MathOperator;
use crate::utils::hash::{TypeHash, WithHash};

verus! {

/// One parameter of a function declaration: its name and the hash of the name
/// of its type.
#[derive(Debug, PartialEq, Clone)]
pub struct FunctionDeclarationArgument {
    pub name: WithHash,
    pub argument_type: TypeHash,
}

impl FunctionDeclarationArgument {
    pub fn new(name: String, arg_type: TypeHash) -> (r: Self)
        ensures
            r.name.val == name,
            r.name.in_step(),
            r.argument_type == arg_type,
    {
        FunctionDeclarationArgument { name: WithHash::new(name), argument_type: arg_type }
    }
}

/// A node of the syntax tree. Types are named by the hash of their name, never
/// by the name itself.
#[allow(non_snake_case)]
#[allow(inconsistent_fields)]
#[derive(Debug, PartialEq)]
pub enum ASTTreeNode {
    IntegerLit(i64),
    StringLit(String),
    OperatorBasedConditionMember {
        lval: Box<ASTTreeNode>,
        rval: Box<ASTTreeNode>,
        operator: ComparingOperator,
    },
    BooleanBasedConditionMember { val: Box<ASTTreeNode>, negate: bool },
    MathResult {
        lval: Box<ASTTreeNode>,
        rval: Box<ASTTreeNode>,
        operator: MathOperator,
        assigns: bool,
    },
    VariableReference(WithHash),
    StructLayoutDeclaration { name: WithHash, layout: bool, members: Vec<Box<ASTTreeNode>> },
    StructFieldMember { name: WithHash, member_type: TypeHash },
    VarDeclaration { var_name: WithHash, var_type: TypeHash, value: Option<Box<ASTTreeNode>> },
    StaticVariableDeclaration { name: WithHash, var_type: TypeHash, val: Box<ASTTreeNode> },
    VarValueChange { var: Box<ASTTreeNode>, value: Box<ASTTreeNode> },
    /// An increment of a variable; by one where no amount is given.
    VarIncrement { var: Box<ASTTreeNode>, increment_by: Option<Box<ASTTreeNode>> },
    /// The head of an `if`. What follows it (`else if`, `else`) hangs on
    /// `else_statement`, each branch on the one before it.
    IfStatement {
        cond: Box<ASTTreeNode>,
        body: Vec<Box<ASTTreeNode>>,
        else_statement: Option<Box<ASTTreeNode>>,
        depth: usize,
    },
    IfElseStatement {
        cond: Option<Box<ASTTreeNode>>,
        body: Vec<Box<ASTTreeNode>>,
        else_statement: Option<Box<ASTTreeNode>>,
    },
    ElseStatement { body: Vec<Box<ASTTreeNode>> },
    ReturnStatement { val: Option<Box<ASTTreeNode>> },
    WhileBlock { cond: Box<ASTTreeNode>, body: Vec<Box<ASTTreeNode>> },
    ForBlock {
        initial_state: Box<ASTTreeNode>,
        cond: Box<ASTTreeNode>,
        increment: Box<ASTTreeNode>,
        body: Vec<Box<ASTTreeNode>>,
    },
    FunctionCall { func: WithHash, args: Vec<Box<ASTTreeNode>> },
    FunctionDeclaration {
        func_name: WithHash,
        args: Vec<FunctionDeclarationArgument>,
        body: Vec<Box<ASTTreeNode>>,
        returnType: Option<TypeHash>,
    },
    /// A function that is declared here and defined elsewhere.
    ShadowFunctionDeclaration {
        func_name: WithHash,
        args: Vec<FunctionDeclarationArgument>,
        returnType: Option<TypeHash>,
    },
    /// `l.r` where `r` names a field.
    StructLRVariable { l: Box<ASTTreeNode>, r: Box<ASTTreeNode> },
    /// `l.r(..)` where `r` calls a member function.
    StructLRFunction { l: Box<ASTTreeNode>, r: Box<ASTTreeNode> },
}

impl ASTTreeNode {
    pub open spec fn spec_is_function_call(&self) -> bool {
        self is FunctionCall || self is StructLRFunction
    }

    pub open spec fn spec_is_var_access(&self) -> bool {
        self is VariableReference || self is StructLRVariable
    }

    pub open spec fn spec_is_tree_permissible(&self) -> bool {
        self is FunctionDeclaration || self is StructLayoutDeclaration
    }

    /// The text of the name that a declaration declares.
    pub open spec fn spec_tree_name(&self) -> Option<Seq<char>> {
        match self {
            ASTTreeNode::FunctionDeclaration { func_name, .. } => Some(func_name.val@),
            ASTTreeNode::StructLayoutDeclaration { name, .. } => Some(name.val@),
            ASTTreeNode::VarDeclaration { var_name, .. } => Some(var_name.val@),
            _ => None,
        }
    }

    /// Whether the last thing of the node is a body, or the fields of a type,
    /// in brackets.
    pub open spec fn spec_ends_in_body(&self) -> bool {
        self is IfStatement || self is IfElseStatement || self is ElseStatement
            || self is WhileBlock || self is ForBlock || self is FunctionDeclaration
            || self is StructLayoutDeclaration
    }

    /// Whether the last thing of the node is a body, or the fields of a type,
    /// in brackets. A rule that parses such a node leaves the index on the
    /// closing bracket.
    pub fn ends_in_body(&self) -> (r: bool)
        ensures
            r == self.spec_ends_in_body(),
    {
        match self {
            ASTTreeNode::IfStatement { .. } => true,
            ASTTreeNode::IfElseStatement { .. } => true,
            ASTTreeNode::ElseStatement { .. } => true,
            ASTTreeNode::WhileBlock { .. } => true,
            ASTTreeNode::ForBlock { .. } => true,
            ASTTreeNode::FunctionDeclaration { .. } => true,
            ASTTreeNode::StructLayoutDeclaration { .. } => true,
            _ => false,
        }
    }

    /// Whether the node calls a function, directly or through a receiver.
    pub fn is_function_call(&self) -> (r: bool)
        ensures
            r == self.spec_is_function_call(),
    {
        match self {
            ASTTreeNode::FunctionCall { .. } => true,
            ASTTreeNode::StructLRFunction { .. } => true,
            _ => false,
        }
    }

    /// Whether the node reads a variable, directly or as a field of a receiver.
    pub fn is_var_access(&self) -> (r: bool)
        ensures
            r == self.spec_is_var_access(),
    {
        match self {
            ASTTreeNode::VariableReference(_) => true,
            ASTTreeNode::StructLRVariable { .. } => true,
            _ => false,
        }
    }

    /// Whether the node may stand at the top level of a file.
    pub fn is_tree_permissible(&self) -> (r: bool)
        ensures
            r == self.spec_is_tree_permissible(),
    {
        match self {
            ASTTreeNode::FunctionDeclaration { .. } => true,
            ASTTreeNode::StructLayoutDeclaration { .. } => true,
            _ => false,
        }
    }

    /// The name that a declaration declares, hashed anew from its text.
    pub fn get_tree_name(&self) -> (r: Option<WithHash>)
        ensures
            match self.spec_tree_name() {
                Some(text) => r is Some && r->Some_0.val@ == text && r->Some_0.in_step(),
                None => r is None,
            },
    {
        match self {
            ASTTreeNode::FunctionDeclaration { func_name, .. } => Some(
                WithHash::new(func_name.val.clone()),
            ),
            ASTTreeNode::StructLayoutDeclaration { name, .. } => Some(
                WithHash::new(name.val.clone()),
            ),
            ASTTreeNode::VarDeclaration { var_name, .. } => Some(
                WithHash::new(var_name.val.clone()),
            ),
            _ => None,
        }
    }
}

} // verus!

//! The texts of errors and warnings, kept in one place to avoid repetition.

use vstd::prelude::*;

verus! {

// Lexer & AST

pub const EXPECTED_TOKEN: &'static str = "Expected a {} but got a {}";

pub const UNEXPECTED_TOKEN: &'static str = "Unexpected {} token";

// Lexer

pub const PARSE_INT: &'static str = "Couldn't parse int literal";

pub const PARSE_FLOAT: &'static str = "Couldn't parse floating literal";

pub const PARSE_STRING: &'static str = "Couldn't parse string literal";

pub const PARSE_OPERATOR: &'static str = "Invalid math operator part! Got char {}";

// AST

pub const PARSE_VALUE: &'static str = "Couldn't parse the following as value.";

pub const UNUSED_VAR_ACCESS: &'static str = "Unused variable access. Consider removing this";

// IO

pub const IO_ERROR_READ: &'static str = "Couldn't read the file!";

// Math

pub const MATH_OP_NO_ASSIGN: &'static str = "This context enforces the usage of assigments in math operations. Please remove this operation or make it assigned";

// IR

pub const IR_OBTAIN_TYPE: &'static str = "Cannot use this vaue as a {}";

pub const IR_EXPECTED_TYPE: &'static str = "Expected type {} but got type {}";

pub const IR_OBTAIN_COND: &'static str = "Cannot use this value as a condition boolean.";

pub const IR_ALREADY_EXISTING_ELEM: &'static str = "Cannot use this name for an element. An element named like this already exists!";

pub const IR_FIND_FUNCTION: &'static str = "Cannot find function in the current context.";

pub const IR_FIND_VARIABLE: &'static str = "Cannot find variable in the current context.";

pub const IR_TYPE_UNSIGNED: &'static str = "Expected an unsigned numeric data type. Change the type here.\nPlease send a bug report at https://github.com/quickfall/quickfall";

pub const IR_TYPE_SIGNED: &'static str = "Expected an unsigned numeric data type. Change the type here.\nPlease send a bug report at https://github.com/quickfall/quickfall";

pub const IR_TYPE_BOOL: &'static str = "Expected a boolean here. Change the type.\nPlease send a bug report at https://github.com/quickfall/quickfall";

pub const IR_STATIC_STR_TYPE: &'static str = "Expected type staticstr for static string variable values. Change the type of this variable to staticstr";

pub const IR_INVALID_INT_COMP_VAL: &'static str = "Cannot perform comparing on given values. Cannot use {} as an integer";

pub const IR_INVALID_MATH_VAL: &'static str = "Cannot perform operations on given values. Cannot use {} as in integer";

pub const IR_ASSIGN_NOVAR: &'static str = "Cannot perform math assignment operations if the left value is not a variable.";

pub const IR_FIND_TYPE: &'static str = "Cannot find said type.";

pub const IR_STATIC_VAR_WRONG_OP: &'static str = "Cannot obtain string reference if value is compile-time replacable.\nPlease send a bug report at https://github.com/quickfall/quickfall";

pub const IR_LAYOUT_FUNCS: &'static str = "Cannot declare member functions inside of a layout. Consider removing the functions or switching the type to be a struct.";

pub const IR_LAYOUT_FUNC_USAGE: &'static str = "Cannot use member functions inside of a layout.\nPlease send a bug report at https://github.com/quickfall/quickfall";

pub const IR_FIELD: &'static str = "Unknown field inside of the current context.";

pub const IR_FIND_PRIMITIVE_TYPE: &'static str = "Cannot find said primitive type in the type storage.\nPlease send a bug report at https://github.com/quickfall/quickfall";

// Internal & Critical Errors

pub const INKWELL_FUNC_FAILED: &'static str = "Inkwell function {} failed.\nPlease send a bug report at https://github.com/quickfall/quickfall, err: {}";

pub const AST_INVALID_TREE: &'static str = "Invalid AST tree node in AST tree! Got node {}.\nPlease send a bug report at https://github.com/quickfall/quickfall";

pub const IR_VALUE_REF_TEMP_TYPE: &'static str = "Cannot perform this action on the given IR value type.\nPlease send a bug report at https://github.com/quickfall/quickfall";

pub const IR_INVALID_NODE_TYPE: &'static str = "Cannot use singular IR parse function on said AST node. Got a {}.\nPlease send a bug report at https://github.com/quickfall/quickfall";

pub const INKWELL_TYPE_GATHER: &'static str = "Cannot use {} on the given IR type.\nPlease send a bug report at https://github.com/quickfall/quickfall";

// Further texts of the IR, the lexer and the parser

pub const IR_ALREADY_REGISTERED_VAR: &'static str = "Variable is already registered in the current context.";

pub const IR_VALUE_NODE: &'static str = "The given node cannot be parsed as a value!";

pub const IR_FUNC_VOID_VALUE: &'static str = "Cannot use the result of the function as a value as it is void!";

pub const IR_BODY_MEMBER: &'static str = "Cannot parse said ASTNode as a function body member!";

pub const IR_MISSING_DECLARATION: &'static str = "No declaration stands under this name.";

pub const IR_NOT_POINTER: &'static str = "Cannot cast said value reference as a pointer!";

pub const IR_NOT_TEMPSTR: &'static str = "Cannot get temp string from IR value type!";

pub const IR_NO_DESCRIPTOR: &'static str = "Given IRType doesn't have a structured type descriptor!";

pub const IR_FIELD_INDEX: &'static str = "Invalid index given to get_pointer_for_field_index";

pub const IR_STRUCT_FUNCTION: &'static str = "Function was not found within the struct!";

pub const IR_NOT_SAME_TYPE: &'static str = "Provided IRType isn't the same!";

pub const IR_BIT_SIZE: &'static str = "Invalid bit size!";

pub const IR_NUM_FIT: &'static str = "Cannot fit the given number value into the given bits!";

pub const IR_EXPECTED_NUMERIC: &'static str = "Expected a numeric value!";

pub const IR_EXPECTED_BOOL: &'static str = "Expected a boolean!";

pub const IR_NOT_INT_TYPE: &'static str = "get_inkwell_inttype was used with a non int typed IRType!";

pub const IR_NODE_KIND: &'static str = "Cannot use this lowering rule on the given AST node!";

pub const IR_ARGUMENT: &'static str = "Couldn't get nth param using get_nth_param";

pub const IR_ARGUMENT_NUMERIC: &'static str = "Tried getting nth argument but given argument's type isn't numeric!";

pub const IR_NESTING_DEPTH: &'static str = "Bodies are nested too deeply.";

pub const IR_MALFORMED_BRANCH: &'static str = "Malformed branch in an if statement.";

pub const BACKEND_HANDLE: &'static str = "The instruction builder was handed a handle that it did not issue.";

pub const EXPECTED_INT_LIT: &'static str = "Expected int litteral here!";

pub const EXPECTED_COMP_OPERATOR: &'static str = "Expected comparing operator here!";

pub const EXPECTED_MATH_OPERATOR: &'static str = "Expected math operator here!";

pub const EXPECTED_STRING_LIT: &'static str = "Expected string litteral here!";

pub const EXPECTED_KEYWORD: &'static str = "Expected keyword here!";

pub const TOKEN_NOT_KEYWORD: &'static str = "Token is not a keyword!";

pub const INVALID_OPERATOR_SIGN: &'static str = "Invalid operator sign!";

pub const PARSE_INT_LIT: &'static str = "Couldn't parse int lit!";

pub const UNEXPECTED_END: &'static str = "Unexpected end of the token stream!";

pub const AST_DOT_ACCESS: &'static str = "Invalid dot access token!";

pub const AST_DOT_ACCESS_KIND: &'static str = "Invalid token type to use dot access!";

pub const AST_NEGATION: &'static str = "Boolean negative requires either func or var access!";

pub const AST_VALUE_TOKEN: &'static str = "Invalid token to parse as a value!";

pub const AST_CONTEXT_TOKEN: &'static str = "Expected valid token type in this context!";

pub const AST_MATH_ASSIGN: &'static str = "Using math operation without assigments is forbidden here!";

pub const AST_NOT_PERMISSIBLE: &'static str = "Parsed AST tree node isn't permissible on an parser tree! This is meant to be in a body!";

pub const AST_CONDITION_OPERATOR: &'static str = "Token doesn't make a valid condition operator";

pub const AST_CONDITION_SEPERATOR: &'static str = "Given pattern is not a condition seperator!";

pub const AST_ARGUMENT_SEPERATOR: &'static str = "Arguments must be seperated with commas";

pub const AST_ARGUMENT_END: &'static str = "Arguments must end with a paren close!";

pub const AST_FOR_SEPERATOR: &'static str = "Requires for bodies to seperated by commas!";

} // verus!

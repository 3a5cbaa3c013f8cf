//! Construction of a typed intermediate representation from a parsed syntax tree:
//! hash-indexed symbol and type storage, depth-scoped local variables, a uniform
//! value-reference abstraction and the lowering rules that drive the code
//! generation backend.

pub mod commons;
pub mod errors;
pub mod utils;
pub mod lexer;
pub mod parser;
pub mod ir;

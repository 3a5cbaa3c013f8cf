//! The intermediate representation: types, values, scopes, and the rules that
//! lower the syntax tree onto the instruction builder.

pub mod backend;
pub mod utils;
pub mod values;
pub mod types;
pub mod irstruct;
pub mod refs;
pub mod rules;
pub mod verdict;
pub mod ctx;
pub mod math;
pub mod bools;
pub mod conv;

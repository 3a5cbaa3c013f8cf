//! The structures of the IR: pointers, functions, static variables and
//! aggregate descriptors.

pub mod funcs;
pub mod ptr;
pub mod staticvars;
pub mod structs;

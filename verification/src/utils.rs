//! Small helpers that do not belong to one stage of the compiler.

pub mod hash;

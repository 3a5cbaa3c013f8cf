//! Control flow.

pub mod forloop;
pub mod ifelse;
pub mod whileblock;

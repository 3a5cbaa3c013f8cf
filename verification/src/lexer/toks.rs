//! The operator tokens.

pub mod comp;
pub mod math;

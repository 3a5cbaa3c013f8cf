//! Hash-keyed storage and numeric bounds.

pub mod map;
pub mod num;

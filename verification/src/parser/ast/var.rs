//! Variables.

pub mod decl;
pub mod staticdecl;

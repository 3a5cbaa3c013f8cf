//! Diagnostics: the message texts, severities, and the records that carry them.

pub mod errors;
pub mod errs;
pub mod pos;

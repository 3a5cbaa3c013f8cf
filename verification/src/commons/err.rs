//! The two error shapes of the compiler: one tied to a source span, one without.

use vstd::prelude::*;
use crate::commons::Position;

verus! {

pub type PositionedResult<K> = Result<K, PositionedError>;

pub type PositionlessResult<K> = Result<K, PositionlessError>;

/// An error that has a position: the span from `start` to `end` and the reason.
#[derive(Debug)]
pub struct PositionedError {
    pub start: Position,
    pub end: Position,
    pub reason: String,
}

/// An error raised where no source span is known.
#[derive(Debug)]
pub struct PositionlessError {
    pub reason: String,
}

impl PositionlessError {
    pub fn new(reason: String) -> (r: Self)
        ensures
            r.reason == reason,
    {
        PositionlessError { reason }
    }

    /// A positionless error whose reason is the given message.
    pub fn with_message(message: &str) -> (r: Self)
        ensures
            r.reason@ == message@,
    {
        PositionlessError { reason: message.to_string() }
    }
}

impl PositionedError {
    pub fn new(start: Position, end: Position, reason: String) -> (r: Self)
        ensures
            r.start == start,
            r.end == end,
            r.reason == reason,
    {
        PositionedError { start, end, reason }
    }
}

/// A result that failed, and for the reason that `message` gives.
pub open spec fn fails_with<K>(r: PositionlessResult<K>, message: &str) -> bool {
    r is Err && r->Err_0.reason@ == message@
}

/// A positioned result that failed at the given span, for the reason that
/// `message` gives.
pub open spec fn fails_at<K>(
    r: PositionedResult<K>,
    start: Position,
    end: Position,
    message: &str,
) -> bool {
    &&& r is Err
    &&& r->Err_0.reason@ == message@
    &&& same_place(r->Err_0.start, start)
    &&& same_place(r->Err_0.end, end)
}

/// Two positions that name the same line and column of the same file.
pub open spec fn same_place(a: Position, b: Position) -> bool {
    a.line == b.line && a.col == b.col && a.file_path@ == b.file_path@
}

} // verus!

//! Pieces shared by every stage: source positions, positioned and positionless
//! errors, hash-keyed storage and numeric bounds.

use vstd::prelude::*;

pub mod err;
pub mod utils;

verus! {

/// A place in a source file: line and column, both counted from one.
#[derive(Debug, Clone, PartialEq)]
pub struct Position {
    pub line: usize,
    pub col: usize,
    pub file_path: String,
}

impl Position {
    pub fn new(path: String, line: usize, col: usize) -> (r: Self)
        ensures
            r.line == line,
            r.col == col,
            r.file_path == path,
    {
        Position { line, col, file_path: path }
    }

    /// The position `count` columns further on the same line.
    pub fn increment_by(&self, count: usize) -> (r: Self)
        requires
            self.col + count <= usize::MAX,
        ensures
            r.line == self.line,
            r.col == self.col + count,
            r.file_path@ == self.file_path@,
    {
        Position::new(self.file_path.clone(), self.line, self.col + count)
    }

    /// A copy of this position.
    pub fn duplicate(&self) -> (r: Self)
        ensures
            r.line == self.line,
            r.col == self.col,
            r.file_path@ == self.file_path@,
    {
        Position::new(self.file_path.clone(), self.line, self.col)
    }
}

} // verus!

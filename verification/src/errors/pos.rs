//! The span that a positioned diagnostic points at.

use vstd::prelude::*;

verus! {

/// A span on one line of a source file: it starts at column `col` (counted from
/// one) and is `size` characters long.
#[derive(Debug)]
pub struct ErrorPosition {
    pub line: usize,
    pub col: usize,
    pub size: usize,
    pub file_path: String,
}

impl ErrorPosition {
    /// The span on `line` from column `col` up to, not including, column `end`.
    pub fn new(path: String, line: usize, col: usize, end: usize) -> (r: Self)
        requires
            col <= end,
        ensures
            r.line == line,
            r.col == col,
            r.size == end - col,
            r.file_path == path,
    {
        ErrorPosition { line, col, size: end - col, file_path: path }
    }

    /// Whether the span lies within a line of `len` characters.
    pub open spec fn within(&self, len: nat) -> bool {
        1 <= self.col && self.col - 1 + self.size <= len
    }

    /// The characters of the span, cut out of the text of its line; nothing if the
    /// span does not lie within the line.
    pub fn get_line_slice(&self, line_text: &str) -> (r: Option<String>)
        ensures
            match r {
                Some(s) => self.within(line_text@.len()) && s@ == line_text@.subrange(
                    self.col - 1,
                    self.col - 1 + self.size,
                ),
                None => !self.within(line_text@.len()),
            },
    {
        let len = line_text.unicode_len();
        if self.col < 1 {
            return None;
        }
        let from = self.col - 1;
        if from > len || self.size > len - from {
            return None;
        }
        let part = line_text.substring_char(from, from + self.size);
        Some(part.to_string())
    }

    /// A copy of this span.
    pub fn duplicate(&self) -> (r: Self)
        ensures
            r.line == self.line,
            r.col == self.col,
            r.size == self.size,
            r.file_path@ == self.file_path@,
    {
        ErrorPosition {
            line: self.line,
            col: self.col,
            size: self.size,
            file_path: self.file_path.clone(),
        }
    }
}

} // verus!

//! Source positions attached to tokens, AST nodes and errors.

use vstd::prelude::*;

verus! {

/// A line/column pair locating a token in the source text. Lines and columns
/// are counted from one, as editors display them.
#[derive(Clone, Copy, Debug, PartialEq, Eq, Structural)]
pub struct Position {
    /// Line number, starting at one.
    pub line: u32,
    /// Column number, starting at one.
    pub column: u32,
}

impl Position {
    /// Builds a position from a one-based line and column.
    pub fn new(line: u32, column: u32) -> (p: Position)
        ensures
            p.line == line,
            p.column == column,
    {
        Position { line, column }
    }
}

} // verus!

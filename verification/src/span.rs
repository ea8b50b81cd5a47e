//! Structured source positions, carried by tokens, syntax-tree nodes and
//! diagnostics, so that no consumer ever has to scrape positions out of
//! message text.

use vstd::prelude::*;

verus! {

/// A position in source text: 1-based line, 1-based column, and 0-based
/// character offset.
#[derive(Clone, Copy, Debug, PartialEq, Eq, Structural)]
pub struct Position {
    pub line: usize,
    pub col: usize,
    pub offset: usize,
}

impl Position {
    pub fn new(line: usize, col: usize, offset: usize) -> (r: Position)
        ensures
            r.line == line && r.col == col && r.offset == offset,
    {
        Position { line, col, offset }
    }
}

/// A source range from a start position to an end position.
#[derive(Clone, Copy, Debug, PartialEq, Eq, Structural)]
pub struct Span {
    pub start: Position,
    pub end: Position,
}

impl Span {
    pub fn new(start: Position, end: Position) -> (r: Span)
        ensures
            r.start == start && r.end == end,
    {
        Span { start, end }
    }

    /// A span covering a single position.
    pub fn at(p: Position) -> (r: Span)
        ensures
            r.start == p && r.end == p,
    {
        Span { start: p, end: p }
    }
}

} // verus!

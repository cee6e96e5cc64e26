//! Cursor position and selection.
use vstd::prelude::*;

verus! {

/// A position in the text: line and column, both zero-based, the column
/// counted in chars.
#[derive(Debug, Clone, Copy, PartialEq, Eq, Structural)]
pub struct Cursor {
    /// Line index.
    pub line: usize,
    /// Column index, in chars.
    pub column: usize,
}

/// `a` comes strictly after `b` in reading order.
pub open spec fn after(a: Cursor, b: Cursor) -> bool {
    a.line > b.line || (a.line == b.line && a.column > b.column)
}

impl Cursor {
    /// A cursor at `line`, `column`.
    pub fn new(line: usize, column: usize) -> (c: Cursor)
        ensures
            c == (Cursor { line, column }),
    {
        Cursor { line, column }
    }

    /// The cursor at the start of the text.
    pub fn origin() -> (c: Cursor)
        ensures
            c == (Cursor { line: 0, column: 0 }),
    {
        Cursor { line: 0, column: 0 }
    }
}

impl Default for Cursor {
    fn default() -> (c: Cursor)
        ensures
            c == (Cursor { line: 0, column: 0 }),
    {
        Cursor::origin()
    }
}

/// A selection from an anchor (`start`) to the cursor (`end`).
#[derive(Debug, Clone, Copy, PartialEq, Eq, Structural)]
pub struct Selection {
    /// Where the selection started.
    pub start: Cursor,
    /// Where the cursor is.
    pub end: Cursor,
}

impl Selection {
    /// A selection from `start` to `end`.
    pub fn new(start: Cursor, end: Cursor) -> (s: Selection)
        ensures
            s == (Selection { start, end }),
    {
        Selection { start, end }
    }

    /// An empty selection at `cursor`.
    pub fn cursor(cursor: Cursor) -> (s: Selection)
        ensures
            s == (Selection { start: cursor, end: cursor }),
    {
        Selection { start: cursor, end: cursor }
    }

    /// Whether the selection covers any text.
    pub fn has_selection(&self) -> (b: bool)
        ensures
            b == (self.start != self.end),
    {
        self.start != self.end
    }

    /// The same selection with `start` not after `end`.
    pub fn normalized(&self) -> (s: Selection)
        ensures
            after(self.start, self.end) ==> s == (Selection { start: self.end, end: self.start }),
            !after(self.start, self.end) ==> s == *self,
    {
        if self.start.line > self.end.line || (self.start.line == self.end.line
            && self.start.column > self.end.column) {
            Selection { start: self.end, end: self.start }
        } else {
            *self
        }
    }
}

/// A normalized selection starts no later than it ends, and normalizing
/// it again changes nothing.
pub proof fn law_normalized_is_ordered(s: Selection)
    ensures
        ({
            let n = if after(s.start, s.end) {
                Selection { start: s.end, end: s.start }
            } else {
                s
            };
            &&& !after(n.start, n.end)
            &&& (n.start == s.start && n.end == s.end) || (n.start == s.end && n.end == s.start)
        }),
{
}

impl Default for Selection {
    fn default() -> (s: Selection)
        ensures
            s == (Selection { start: Cursor { line: 0, column: 0 }, end: Cursor { line: 0, column: 0 } }),
    {
        Selection::cursor(Cursor::origin())
    }
}

} // verus!

//! Positions in the source text, counted in grapheme clusters.
use vstd::prelude::*;
use crate::text::{is_char, is_one};

verus! {

/// One point in the source: a 1-based line and column and a 0-based index
/// over all grapheme clusters.
#[derive(Debug, Clone, Copy, PartialEq, Eq, Structural)]
pub struct SourceLocation {
    pub line: usize,
    pub column: usize,
    /// The absolute index into the source, whatever the line and column.
    pub index: usize,
}

impl SourceLocation {
    /// The location just past `symbol`, for a location at `symbol`.
    pub open spec fn after(self, symbol: Seq<char>) -> SourceLocation {
        if is_one(symbol, '\n') {
            SourceLocation {
                line: (self.line + 1) as usize,
                column: 1,
                index: (self.index + 1) as usize,
            }
        } else {
            SourceLocation {
                line: self.line,
                column: (self.column + 1) as usize,
                index: (self.index + 1) as usize,
            }
        }
    }

    /// The first location of any source.
    pub open spec fn start() -> SourceLocation {
        SourceLocation { line: 1, column: 1, index: 0 }
    }

    /// The first location of any source: line 1, column 1, index 0.
    pub fn new() -> (r: Self)
        ensures
            r == Self::start(),
    {
        SourceLocation { line: 1, column: 1, index: 0 }
    }

    /// Moves past a newline: to the first column of the next line.
    pub fn increment_line(&mut self)
        requires
            old(self).line < usize::MAX,
            old(self).index < usize::MAX,
        ensures
            *final(self) == old(self).after(seq!['\n']),
    {
        self.line += 1;
        self.column = 1;
        self.index += 1;
    }

    /// Moves past a symbol that is no newline: to the next column.
    pub fn increment_column(&mut self)
        requires
            old(self).column < usize::MAX,
            old(self).index < usize::MAX,
        ensures
            final(self).line == old(self).line,
            final(self).column == old(self).column + 1,
            final(self).index == old(self).index + 1,
    {
        self.column += 1;
        self.index += 1;
    }

    /// Moves past one grapheme cluster: a newline starts the next line, any
    /// other symbol the next column.
    pub fn increment(&mut self, symbol: &str)
        requires
            old(self).line < usize::MAX,
            old(self).column < usize::MAX,
            old(self).index < usize::MAX,
        ensures
            *final(self) == old(self).after(symbol@),
    {
        if is_char(symbol, '\n') {
            self.increment_line();
        } else {
            self.increment_column();
        }
    }
}

/// The location of grapheme `i` of `source`: where a cursor stands after it
/// has moved over the first `i` grapheme clusters.
pub open spec fn location_at(source: Seq<Seq<char>>, i: int) -> SourceLocation
    decreases i,
{
    if i <= 0 {
        SourceLocation::start()
    } else {
        location_at(source, i - 1).after(source[i - 1])
    }
}

/// A location never runs ahead of its index: line and column together
/// exceed the index by at most two.
pub proof fn lemma_location_bounds(source: Seq<Seq<char>>, i: int)
    requires
        0 <= i <= source.len() < usize::MAX,
    ensures
        location_at(source, i).index == i,
        location_at(source, i).line >= 1,
        location_at(source, i).column >= 1,
        location_at(source, i).line + location_at(source, i).column <= i + 2,
    decreases i,
{
    if i > 0 {
        lemma_location_bounds(source, i - 1);
    }
}

/// A half-open range of the source: `start` is the first location in it,
/// `end` the first one past it.
#[derive(Debug, Clone, Copy, PartialEq, Eq, Structural)]
pub struct SourceSpan {
    pub start: SourceLocation,
    pub end: SourceLocation,
}

/// The span of the graphemes `from..to` of `source`.
pub open spec fn span_at(source: Seq<Seq<char>>, from: int, to: int) -> SourceSpan {
    SourceSpan { start: location_at(source, from), end: location_at(source, to) }
}

impl SourceSpan {
    /// The empty span at the first location.
    pub fn new() -> (r: Self)
        ensures
            r.start == SourceLocation::start(),
            r.end == SourceLocation::start(),
    {
        SourceSpan { start: SourceLocation::new(), end: SourceLocation::new() }
    }

    /// Collapses the span onto its end, where the next span begins.
    pub fn close(&mut self)
        ensures
            final(self).start == old(self).end,
            final(self).end == old(self).end,
    {
        self.start = self.end;
    }
}

} // verus!

//! Points and ranges in source text.
//!
//! A `Position` locates one point; a `Span` locates a half-open range
//! `[start, stop)`. Spans are created once, when a failure is detected,
//! by copying position data out of the node that triggered it.

use vstd::prelude::*;

verus! {

/// A point in source text, zero-based. `line` and `column` are for
/// display; `offset` is an absolute index into the source text usable
/// for slicing.
#[derive(Debug, Clone, Copy, PartialEq, Eq, Structural)]
pub struct Position {
    pub line: u32,
    pub column: u32,
    pub offset: u32,
}

/// `a` is at or before `b`, ordered lexicographically by `(line, column)`.
pub open spec fn pos_le(a: Position, b: Position) -> bool {
    a.line < b.line || (a.line == b.line && a.column <= b.column)
}

/// A half-open range `[start, stop)` of source text.
#[derive(Debug, Clone, Copy, PartialEq, Eq, Structural)]
pub struct Span {
    pub start: Position,
    pub stop: Position,
}

/// A well-formed span: `start <= stop` lexicographically by `(line, column)`.
pub open spec fn span_wf(s: Span) -> bool {
    pos_le(s.start, s.stop)
}

impl Span {
    /// Builds a span from two positions. Ranges that would run backwards
    /// are rejected at the call site: every span this returns is well
    /// formed.
    pub fn new(start: Position, stop: Position) -> (s: Span)
        requires
            pos_le(start, stop),
        ensures
            s.start == start,
            s.stop == stop,
            span_wf(s),
    {
        Span { start, stop }
    }

    /// Builds the single-character span at `start`: `stop` is `start`
    /// advanced by exactly one column and one offset. Used when a failure
    /// reports only a point, not a range.
    pub fn from_point(start: Position) -> (s: Span)
        requires
            start.column < u32::MAX,
            start.offset < u32::MAX,
        ensures
            s.start == start,
            s.stop.line == start.line,
            s.stop.column == start.column + 1,
            s.stop.offset == start.offset + 1,
            span_wf(s),
    {
        let stop = Position { line: start.line, column: start.column + 1, offset: start.offset + 1 };
        Span { start, stop }
    }

    /// Whether the span begins and ends on the same source line.
    pub fn single_line(&self) -> (r: bool)
        ensures
            r == (self.start.line == self.stop.line),
    {
        self.start.line == self.stop.line
    }
}

/// Every span built by this module's constructors satisfies
/// `start <= stop` under `(line, column)` ordering.
pub proof fn lemma_span_ordering(s: Span)
    requires
        span_wf(s),
    ensures
        s.start.line < s.stop.line || (s.start.line == s.stop.line && s.start.column
            <= s.stop.column),
{
}

} // verus!

//! Source positions and ranges.
//!
//! A `Location` is a 1-based (line, column) pair; `(0, 0)` stands for an
//! unknown position. A `Span` is an ordered pair of locations. Spans are
//! value objects: every syntax-tree node and every diagnostic carries one.

use vstd::prelude::*;

verus! {

/// A 1-based (line, column) position; `(0, 0)` means "unknown".
#[derive(Clone, Copy, PartialEq, Eq, Structural, Debug)]
pub struct Location {
    pub line: usize,
    pub column: usize,
}

/// Source order on locations: earlier line, or same line and
/// earlier-or-equal column.
pub open spec fn loc_le(a: Location, b: Location) -> bool {
    a.line < b.line || (a.line == b.line && a.column <= b.column)
}

/// The unknown position.
pub open spec fn unknown_loc() -> Location {
    Location { line: 0, column: 0 }
}

/// The unknown range.
pub open spec fn unknown_span() -> Span {
    Span { from: unknown_loc(), to: unknown_loc() }
}

/// The rendering of a span in diagnostics: `line:column .. line:column`.
pub open spec fn spec_span_chars(s: Span) -> Seq<char> {
    crate::chars::spec_nat_chars(s.from.line as nat) + seq![':'] + crate::chars::spec_nat_chars(
        s.from.column as nat,
    ) + " .. "@ + crate::chars::spec_nat_chars(s.to.line as nat) + seq![':']
        + crate::chars::spec_nat_chars(s.to.column as nat)
}

impl Location {
    /// The unknown position `(0, 0)`.
    pub fn new() -> (r: Self)
        ensures
            r == (Location { line: 0, column: 0 }),
    {
        Location { line: 0, column: 0 }
    }

    pub fn set_line(&mut self, line: usize)
        ensures
            *final(self) == (Location { line, column: old(self).column }),
    {
        self.line = line;
    }

    pub fn set_column(&mut self, column: usize)
        ensures
            *final(self) == (Location { line: old(self).line, column }),
    {
        self.column = column;
    }

    pub fn with_line(self, line: usize) -> (r: Self)
        ensures
            r == (Location { line, column: self.column }),
    {
        Location { line, ..self }
    }

    pub fn with_column(self, column: usize) -> (r: Self)
        ensures
            r == (Location { line: self.line, column }),
    {
        Location { column, ..self }
    }
}

/// An inclusive source range `[from, to]`.
#[derive(Clone, Copy, PartialEq, Eq, Structural, Debug)]
pub struct Span {
    pub from: Location,
    pub to: Location,
}

impl Span {
    /// The unknown range: both ends at `(0, 0)`.
    pub fn new() -> (r: Self)
        ensures
            r == (Span { from: Location { line: 0, column: 0 }, to: Location { line: 0, column: 0 } }),
    {
        Span { from: Location { line: 0, column: 0 }, to: Location { line: 0, column: 0 } }
    }

    pub fn from(self, from: Location) -> (r: Self)
        ensures
            r == (Span { from, to: self.to }),
    {
        Span { from, ..self }
    }

    pub fn to(self, to: Location) -> (r: Self)
        ensures
            r == (Span { from: self.from, to }),
    {
        Span { to, ..self }
    }

    /// A well-formed span runs forward: `from` is no later than `to`.
    pub open spec fn wf(self) -> bool {
        loc_le(self.from, self.to)
    }

    /// Renders the span as it appears in diagnostics.
    pub fn to_chars(&self) -> (r: Vec<char>)
        ensures
            r@ == spec_span_chars(*self),
    {
        let mut r = crate::chars::usize_chars(self.from.line);
        r.push(':');
        let c1 = crate::chars::usize_chars(self.from.column);
        crate::chars::push_all(&mut r, c1.as_slice());
        let mid = crate::chars::chars_of(" .. ");
        crate::chars::push_all(&mut r, mid.as_slice());
        let l2 = crate::chars::usize_chars(self.to.line);
        crate::chars::push_all(&mut r, l2.as_slice());
        r.push(':');
        let c2 = crate::chars::usize_chars(self.to.column);
        crate::chars::push_all(&mut r, c2.as_slice());
        proof {
            assert(r@ =~= spec_span_chars(*self));
        }
        r
    }

    /// One span lies within another.
    pub open spec fn within(self, outer: Span) -> bool {
        loc_le(outer.from, self.from) && loc_le(self.to, outer.to)
    }
}

} // verus!

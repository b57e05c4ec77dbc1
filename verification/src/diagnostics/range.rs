//! Source ranges for diagnostics.

use vstd::prelude::*;
use crate::diagnostics::position::{DiagnosticPosition, dpos_le, dpos_lt, dpos_new, position_lt};
use crate::parser::TextRange as ParserTextRange;

verus! {

/// A source code range associated with a diagnostic report.
#[derive(Debug, Clone, Copy, PartialEq, Eq, Structural, Hash)]
pub struct DiagnosticRange {
    /// Starting position (inclusive).
    pub start: DiagnosticPosition,
    /// Ending position (exclusive).
    pub end: DiagnosticPosition,
}

/// True when `pos` lies in `[r.start, r.end)`.
pub open spec fn range_contains(r: DiagnosticRange, pos: DiagnosticPosition) -> bool {
    dpos_le(r.start, pos) && dpos_lt(pos, r.end)
}

/// True when two ranges overlap.
pub open spec fn ranges_intersect(a: DiagnosticRange, b: DiagnosticRange) -> bool {
    dpos_lt(a.start, b.end) && dpos_lt(b.start, a.end)
}

/// Bytes spanned by a range (0 when the end lies before the start).
pub open spec fn range_byte_len(r: DiagnosticRange) -> nat {
    if r.end.byte_offset >= r.start.byte_offset {
        (r.end.byte_offset - r.start.byte_offset) as nat
    } else {
        0
    }
}

impl DiagnosticRange {
    /// Creates a range.
    pub fn new(start: DiagnosticPosition, end: DiagnosticPosition) -> (r: Self)
        ensures
            r == (DiagnosticRange { start, end }),
    {
        DiagnosticRange { start, end }
    }

    /// A zero-length range at a position.
    pub fn point(at: DiagnosticPosition) -> (r: Self)
        ensures
            r == (DiagnosticRange { start: at, end: at }),
    {
        DiagnosticRange { start: at, end: at }
    }

    /// A range on a single line.
    pub fn single_line(
        line: usize,
        start_col: usize,
        end_col: usize,
        start_byte: usize,
        end_byte: usize,
    ) -> (r: Self)
        ensures
            r == (DiagnosticRange {
                start: dpos_new(line, start_col, start_byte),
                end: dpos_new(line, end_col, end_byte),
            }),
    {
        DiagnosticRange {
            start: DiagnosticPosition::new(line, start_col, start_byte),
            end: DiagnosticPosition::new(line, end_col, end_byte),
        }
    }

    /// True when the position falls within this range.
    pub fn contains_position(&self, pos: DiagnosticPosition) -> (r: bool)
        ensures
            r == range_contains(*self, pos),
    {
        !position_lt(pos, self.start) && position_lt(pos, self.end)
    }

    /// True when the two ranges overlap.
    pub fn intersects(&self, other: &DiagnosticRange) -> (r: bool)
        ensures
            r == ranges_intersect(*self, *other),
    {
        position_lt(self.start, other.end) && position_lt(other.start, self.end)
    }

    /// Bytes spanned by this range.
    pub fn byte_len(&self) -> (r: usize)
        ensures
            r == range_byte_len(*self),
    {
        self.end.byte_offset.saturating_sub(self.start.byte_offset)
    }

    /// True when the range spans no bytes.
    pub fn is_empty(&self) -> (r: bool)
        ensures
            r == (range_byte_len(*self) == 0),
    {
        self.byte_len() == 0
    }

    /// Converts a parser range.
    pub fn from_parser(r: ParserTextRange) -> (res: Self)
        requires
            r.start.line < usize::MAX,
            r.start.column < usize::MAX,
            r.end.line < usize::MAX,
            r.end.column < usize::MAX,
        ensures
            res.start == (DiagnosticPosition {
                line: (r.start.line + 1) as usize,
                column: (r.start.column + 1) as usize,
                byte_offset: r.start.byte_offset,
            }),
            res.end == (DiagnosticPosition {
                line: (r.end.line + 1) as usize,
                column: (r.end.column + 1) as usize,
                byte_offset: r.end.byte_offset,
            }),
    {
        DiagnosticRange {
            start: DiagnosticPosition::from_parser(r.start),
            end: DiagnosticPosition::from_parser(r.end),
        }
    }

    /// The displayed form `[start..end]`.
    pub fn to_text(&self) -> (r: String)
        ensures
            r@ == seq!['['] + self.start.to_text_spec() + seq!['.', '.'] + self.end.to_text_spec()
                + seq![']'],
    {
        let mut s = String::new();
        s.append("[");
        let a = self.start.to_text();
        s.append(a.as_str());
        s.append("..");
        let b = self.end.to_text();
        s.append(b.as_str());
        s.append("]");
        proof {
            reveal_strlit("[");
            reveal_strlit("..");
            reveal_strlit("]");
        }
        s
    }
}

} // verus!

//! 1-based source positions for diagnostic reports.

use vstd::prelude::*;
use crate::parser::Position as ParserPosition;
use crate::text::push_decimal;

verus! {

/// A 1-based human-readable line/column position with an absolute byte offset.
#[derive(Debug, Clone, Copy, PartialEq, Eq, Structural, PartialOrd, Ord, Hash)]
pub struct DiagnosticPosition {
    /// 1-based line number.
    pub line: usize,
    /// 1-based column number.
    pub column: usize,
    /// 0-based absolute UTF-8 byte offset in the source buffer.
    pub byte_offset: usize,
}

/// Position order: by line, then column, then byte offset.
pub open spec fn dpos_lt(a: DiagnosticPosition, b: DiagnosticPosition) -> bool {
    a.line < b.line || (a.line == b.line && (a.column < b.column || (a.column == b.column
        && a.byte_offset < b.byte_offset)))
}

/// Non-strict position order.
pub open spec fn dpos_le(a: DiagnosticPosition, b: DiagnosticPosition) -> bool {
    dpos_lt(a, b) || a == b
}

/// A position whose 0 line or column counts as 1.
pub open spec fn dpos_new(line: usize, column: usize, byte_offset: usize) -> DiagnosticPosition {
    DiagnosticPosition {
        line: if line == 0 { 1 } else { line },
        column: if column == 0 { 1 } else { column },
        byte_offset,
    }
}

/// The diagnostic position of a 0-based parser position.
pub open spec fn from_parser_spec(p: ParserPosition) -> DiagnosticPosition {
    DiagnosticPosition { line: (p.line + 1) as usize, column: (p.column + 1) as usize, byte_offset: p.byte_offset }
}

/// The 0-based parser position of a diagnostic position (a 0 line or column stays 0).
pub open spec fn to_parser_spec(d: DiagnosticPosition) -> ParserPosition {
    ParserPosition {
        line: if d.line == 0 { 0 } else { (d.line - 1) as usize },
        column: if d.column == 0 { 0 } else { (d.column - 1) as usize },
        byte_offset: d.byte_offset,
    }
}

/// Converting a diagnostic position to a parser position and back gives it back
/// when its line and column are at least 1; the other way round, a parser position
/// comes back when its line and column are below the largest `usize`.
pub proof fn lemma_parser_round_trip(d: DiagnosticPosition, p: ParserPosition)
    ensures
        d.line >= 1 && d.column >= 1 ==> from_parser_spec(to_parser_spec(d)) == d,
        p.line < usize::MAX && p.column < usize::MAX ==> to_parser_spec(from_parser_spec(p)) == p,
{
}

/// Strict order of two positions.
pub fn position_lt(a: DiagnosticPosition, b: DiagnosticPosition) -> (r: bool)
    ensures
        r == dpos_lt(a, b),
{
    a.line < b.line || (a.line == b.line && (a.column < b.column || (a.column == b.column
        && a.byte_offset < b.byte_offset)))
}

impl DiagnosticPosition {
    /// Creates a position from a 1-based line and column (0 counts as 1).
    pub fn new(line: usize, column: usize, byte_offset: usize) -> (r: Self)
        ensures
            r == dpos_new(line, column, byte_offset),
    {
        DiagnosticPosition {
            line: if line == 0 { 1 } else { line },
            column: if column == 0 { 1 } else { column },
            byte_offset,
        }
    }

    /// Creates a position from a 0-based line and column.
    pub fn from_zero_based(line: usize, column: usize, byte_offset: usize) -> (r: Self)
        requires
            line < usize::MAX,
            column < usize::MAX,
        ensures
            r == (DiagnosticPosition { line: (line + 1) as usize, column: (column + 1) as usize, byte_offset }),
    {
        DiagnosticPosition { line: line + 1, column: column + 1, byte_offset }
    }

    /// The start of a document: line 1, column 1, byte offset 0.
    pub fn zero() -> (r: Self)
        ensures
            r == (DiagnosticPosition { line: 1, column: 1, byte_offset: 0 }),
    {
        DiagnosticPosition { line: 1, column: 1, byte_offset: 0 }
    }

    /// The zero-based line index.
    pub fn zero_based_line(&self) -> (r: usize)
        ensures
            r == (if self.line == 0 { 0 } else { (self.line - 1) as usize }),
    {
        self.line.saturating_sub(1)
    }

    /// The zero-based column index.
    pub fn zero_based_column(&self) -> (r: usize)
        ensures
            r == (if self.column == 0 { 0 } else { (self.column - 1) as usize }),
    {
        self.column.saturating_sub(1)
    }

    /// Converts a parser position (0-based) into a diagnostic position.
    pub fn from_parser(pos: ParserPosition) -> (r: Self)
        requires
            pos.line < usize::MAX,
            pos.column < usize::MAX,
        ensures
            r == from_parser_spec(pos),
    {
        Self::from_zero_based(pos.line, pos.column, pos.byte_offset)
    }

    /// Converts into a 0-based parser position.
    pub fn to_parser(&self) -> (r: ParserPosition)
        ensures
            r == to_parser_spec(*self),
    {
        ParserPosition::new(self.zero_based_line(), self.zero_based_column(), self.byte_offset)
    }

    /// The displayed form `line:column`.
    pub open spec fn to_text_spec(self) -> Seq<char> {
        crate::text::decimal(self.line as nat) + seq![':'] + crate::text::decimal(self.column as nat)
    }

    /// The displayed form `line:column`.
    pub fn to_text(&self) -> (r: String)
        ensures
            r@ == self.to_text_spec(),
    {
        let mut s = String::new();
        push_decimal(&mut s, self.line);
        s.append(":");
        proof {
            reveal_strlit(":");
        }
        push_decimal(&mut s, self.column);
        s
    }
}

} // verus!

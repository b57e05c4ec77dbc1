//! Cursor positions and cursor navigation over a vector of lines.

use vstd::prelude::*;
use crate::text::{char_is_alphanumeric, char_is_whitespace, chars_of, is_alnum, is_ws};

verus! {

/// 0-indexed position within a text buffer (row, character column).
#[derive(Debug, Clone, Copy, PartialEq, Eq, Structural, PartialOrd, Ord, Hash)]
pub struct CursorPosition {
    /// 0-indexed line index.
    pub row: usize,
    /// 0-indexed character scalar index within the line.
    pub col: usize,
}

/// Lexicographic order on positions: first by row, then by column.
pub open spec fn pos_le(a: CursorPosition, b: CursorPosition) -> bool {
    a.row < b.row || (a.row == b.row && a.col <= b.col)
}

/// `a <= b` in the lexicographic order of positions.
pub fn position_le(a: CursorPosition, b: CursorPosition) -> (r: bool)
    ensures
        r == pos_le(a, b),
{
    a.row < b.row || (a.row == b.row && a.col <= b.col)
}

/// Field-wise equality of two positions.
pub fn position_eq(a: CursorPosition, b: CursorPosition) -> (r: bool)
    ensures
        r == (a == b),
{
    a.row == b.row && a.col == b.col
}

impl Default for CursorPosition {
    fn default() -> (r: Self)
        ensures
            r.row == 0 && r.col == 0,
    {
        CursorPosition { row: 0, col: 0 }
    }
}

impl CursorPosition {
    /// Creates a new `CursorPosition`.
    pub fn new(row: usize, col: usize) -> (r: Self)
        ensures
            r.row == row && r.col == col,
    {
        CursorPosition { row, col }
    }

    /// Origin position (0, 0).
    pub fn zero() -> (r: Self)
        ensures
            r.row == 0 && r.col == 0,
    {
        CursorPosition { row: 0, col: 0 }
    }
}

/// Character count of line `row`, or 0 when there is no such line.
pub open spec fn line_len(lines: Seq<String>, row: int) -> nat {
    if 0 <= row < lines.len() {
        lines[row]@.len()
    } else {
        0
    }
}

/// Helper to get the Unicode character count of a given line (0 past the end).
pub fn get_line_char_count(lines: &[String], row: usize) -> (n: usize)
    ensures
        n == line_len(lines@, row as int),
{
    if row < lines.len() {
        crate::text::char_count(lines[row].as_str())
    } else {
        0
    }
}

/// End of the run of characters starting at `i` that share the alphanumeric class
/// `cls` and are not whitespace.
pub open spec fn skip_word_fwd(c: Seq<char>, i: int, cls: bool) -> int
    decreases c.len() - i,
{
    if 0 <= i < c.len() && is_alnum(c[i]) == cls && !is_ws(c[i]) {
        skip_word_fwd(c, i + 1, cls)
    } else {
        i
    }
}

/// End of the run of whitespace characters starting at `i`.
pub open spec fn skip_ws_fwd(c: Seq<char>, i: int) -> int
    decreases c.len() - i,
{
    if 0 <= i < c.len() && is_ws(c[i]) {
        skip_ws_fwd(c, i + 1)
    } else {
        i
    }
}

/// Start of the run of whitespace characters that ends at `i`.
pub open spec fn skip_ws_back(c: Seq<char>, i: int) -> int
    decreases i,
{
    if 0 < i <= c.len() && is_ws(c[i - 1]) {
        skip_ws_back(c, i - 1)
    } else {
        i
    }
}

/// Start of the run of non-whitespace characters of alphanumeric class `cls`
/// that ends at `i`.
pub open spec fn skip_word_back(c: Seq<char>, i: int, cls: bool) -> int
    decreases i,
{
    if 0 < i <= c.len() && is_alnum(c[i - 1]) == cls && !is_ws(c[i - 1]) {
        skip_word_back(c, i - 1, cls)
    } else {
        i
    }
}

/// The column reached from `col` by a forward word move within a line.
pub open spec fn word_fwd_col(c: Seq<char>, col: int) -> int {
    skip_ws_fwd(c, skip_word_fwd(c, col, is_alnum(c[col])))
}

/// The column reached from `col > 0` by a backward word move within a line.
pub open spec fn word_back_col(c: Seq<char>, col: int) -> int {
    let idx = skip_ws_back(c, col);
    if idx == 0 {
        0
    } else {
        skip_word_back(c, idx, is_alnum(c[idx - 1]))
    }
}

/// True when the position lies within the lines: a valid row, and a column
/// no further than the end of that row.
pub open spec fn pos_in_bounds(lines: Seq<String>, p: CursorPosition) -> bool {
    &&& p.row < lines.len()
    &&& p.col <= lines[p.row as int]@.len()
}

/// The position that clamping `p` to `lines` yields.
pub open spec fn clamp_spec(lines: Seq<String>, p: CursorPosition) -> CursorPosition {
    if lines.len() == 0 {
        CursorPosition { row: 0, col: 0 }
    } else {
        let row = if p.row >= lines.len() { (lines.len() - 1) as usize } else { p.row };
        let len = line_len(lines, row as int);
        CursorPosition { row, col: if p.col > len { len as usize } else { p.col } }
    }
}

/// Represents the active editing cursor with navigation and bounds-clamping logic.
#[derive(Debug, Clone, Copy, PartialEq, Eq, Structural)]
pub struct Cursor {
    /// Current position of the cursor.
    pub position: CursorPosition,
    /// Preferred column maintained when navigating vertically across variable-length lines.
    pub preferred_col: Option<usize>,
}

impl Default for Cursor {
    fn default() -> (r: Self)
        ensures
            r.position.row == 0 && r.position.col == 0 && r.preferred_col is None,
    {
        Cursor::new()
    }
}

impl Cursor {
    /// Creates a new `Cursor` initialized at (0, 0).
    pub fn new() -> (r: Self)
        ensures
            r.position.row == 0 && r.position.col == 0 && r.preferred_col is None,
    {
        Cursor { position: CursorPosition::zero(), preferred_col: None }
    }

    /// Creates a `Cursor` initialized at specified row and col.
    pub fn at(row: usize, col: usize) -> (r: Self)
        ensures
            r.position.row == row && r.position.col == col && r.preferred_col == Some(col),
    {
        Cursor { position: CursorPosition::new(row, col), preferred_col: Some(col) }
    }

    /// Returns row index.
    pub fn row(&self) -> (r: usize)
        ensures
            r == self.position.row,
    {
        self.position.row
    }

    /// Returns character column index.
    pub fn col(&self) -> (r: usize)
        ensures
            r == self.position.col,
    {
        self.position.col
    }

    /// Moves cursor left by one character. Wraps to end of previous line if at col 0.
    pub fn move_left(&mut self, lines: &[String])
        ensures
            final(self).preferred_col is None,
            old(self).position.col > 0 ==> final(self).position == (CursorPosition {
                row: old(self).position.row,
                col: (old(self).position.col - 1) as usize,
            }),
            old(self).position.col == 0 && old(self).position.row > 0 ==> final(self).position
                == (CursorPosition {
                row: (old(self).position.row - 1) as usize,
                col: line_len(lines@, old(self).position.row - 1) as usize,
            }),
            old(self).position.col == 0 && old(self).position.row == 0 ==> final(self).position
                == old(self).position,
    {
        self.preferred_col = None;
        if self.position.col > 0 {
            self.position.col = self.position.col - 1;
        } else if self.position.row > 0 {
            self.position.row = self.position.row - 1;
            self.position.col = get_line_char_count(lines, self.position.row);
        }
    }

    /// Moves cursor right by one character. Wraps to start of next line if at end of line.
    pub fn move_right(&mut self, lines: &[String])
        ensures
            final(self).preferred_col is None,
            ({
                let p = old(self).position;
                let len = line_len(lines@, p.row as int);
                if p.col < len {
                    final(self).position == CursorPosition { row: p.row, col: (p.col + 1) as usize }
                } else if p.row + 1 < lines@.len() {
                    final(self).position == CursorPosition { row: (p.row + 1) as usize, col: 0 }
                } else {
                    final(self).position == p
                }
            }),
    {
        self.preferred_col = None;
        let char_count = get_line_char_count(lines, self.position.row);
        if self.position.col < char_count {
            self.position.col = self.position.col + 1;
        } else if self.position.row < lines.len() && self.position.row + 1 < lines.len() {
            self.position.row = self.position.row + 1;
            self.position.col = 0;
        }
    }

    /// Moves cursor up by one line, attempting to preserve preferred column.
    pub fn move_up(&mut self, lines: &[String])
        ensures
            ({
                let p = old(self).position;
                let target = match old(self).preferred_col {
                    Some(c) => c,
                    None => p.col,
                };
                if p.row > 0 {
                    let len = line_len(lines@, p.row - 1);
                    &&& final(self).preferred_col == Some(target)
                    &&& final(self).position.row == p.row - 1
                    &&& final(self).position.col == if target <= len { target as int } else { len as int }
                } else {
                    *final(self) == *old(self)
                }
            }),
    {
        if self.position.row > 0 {
            let target_col = match self.preferred_col {
                Some(c) => c,
                None => self.position.col,
            };
            self.preferred_col = Some(target_col);
            self.position.row = self.position.row - 1;
            let line_len = get_line_char_count(lines, self.position.row);
            self.position.col = if target_col <= line_len { target_col } else { line_len };
        }
    }

    /// Moves cursor down by one line, attempting to preserve preferred column.
    pub fn move_down(&mut self, lines: &[String])
        ensures
            ({
                let p = old(self).position;
                let target = match old(self).preferred_col {
                    Some(c) => c,
                    None => p.col,
                };
                if p.row + 1 < lines@.len() {
                    let len = line_len(lines@, p.row + 1);
                    &&& final(self).preferred_col == Some(target)
                    &&& final(self).position.row == p.row + 1
                    &&& final(self).position.col == if target <= len { target as int } else { len as int }
                } else {
                    *final(self) == *old(self)
                }
            }),
    {
        if self.position.row < lines.len() && self.position.row + 1 < lines.len() {
            let target_col = match self.preferred_col {
                Some(c) => c,
                None => self.position.col,
            };
            self.preferred_col = Some(target_col);
            self.position.row = self.position.row + 1;
            let line_len = get_line_char_count(lines, self.position.row);
            self.position.col = if target_col <= line_len { target_col } else { line_len };
        }
    }

    /// Moves cursor to start of current line (col 0).
    pub fn move_to_line_start(&mut self)
        ensures
            final(self).preferred_col is None,
            final(self).position == (CursorPosition { row: old(self).position.row, col: 0 }),
    {
        self.preferred_col = None;
        self.position.col = 0;
    }

    /// Moves cursor to end of current line.
    pub fn move_to_line_end(&mut self, lines: &[String])
        ensures
            final(self).preferred_col is None,
            final(self).position == (CursorPosition {
                row: old(self).position.row,
                col: line_len(lines@, old(self).position.row as int) as usize,
            }),
    {
        self.preferred_col = None;
        self.position.col = get_line_char_count(lines, self.position.row);
    }

    /// Moves cursor to top-left of file (0, 0).
    pub fn move_to_file_start(&mut self)
        ensures
            final(self).preferred_col is None,
            final(self).position == (CursorPosition { row: 0, col: 0 }),
    {
        self.preferred_col = None;
        self.position = CursorPosition::zero();
    }

    /// Moves cursor to end of file (last line, end of last line).
    pub fn move_to_file_end(&mut self, lines: &[String])
        ensures
            final(self).preferred_col is None,
            lines@.len() == 0 ==> final(self).position == (CursorPosition { row: 0, col: 0 }),
            lines@.len() > 0 ==> final(self).position == (CursorPosition {
                row: (lines@.len() - 1) as usize,
                col: lines@[lines@.len() - 1]@.len() as usize,
            }),
    {
        self.preferred_col = None;
        if lines.len() == 0 {
            self.position = CursorPosition::zero();
        } else {
            let last_row = lines.len() - 1;
            let last_col = get_line_char_count(lines, last_row);
            self.position = CursorPosition::new(last_row, last_col);
        }
    }

    /// Moves cursor forward by one word boundary.
    pub fn move_word_forward(&mut self, lines: &[String])
        requires
            lines@.len() > 0 ==> old(self).position.row < lines@.len(),
        ensures
            final(self).preferred_col is None,
            ({
                let p = old(self).position;
                if lines@.len() == 0 {
                    final(self).position == p
                } else {
                    let c = lines@[p.row as int]@;
                    if p.col >= c.len() {
                        if p.row + 1 < lines@.len() {
                            final(self).position == CursorPosition { row: (p.row + 1) as usize, col: 0 }
                        } else {
                            final(self).position == p
                        }
                    } else {
                        let idx = word_fwd_col(c, p.col as int);
                        if idx >= c.len() && p.row + 1 < lines@.len() {
                            final(self).position == CursorPosition { row: (p.row + 1) as usize, col: 0 }
                        } else {
                            final(self).position == CursorPosition { row: p.row, col: idx as usize }
                        }
                    }
                }
            }),
    {
        self.preferred_col = None;
        if lines.len() == 0 {
            return;
        }
        let chars = chars_of(lines[self.position.row].as_str());
        let len = chars.len();
        if self.position.col >= len {
            if self.position.row + 1 < lines.len() {
                self.position.row = self.position.row + 1;
                self.position.col = 0;
            }
            return;
        }
        let ghost c = chars@;
        let ghost col0 = self.position.col as int;
        let mut idx = self.position.col;
        let initial_is_alphanumeric = char_is_alphanumeric(chars[idx]);
        while idx < len && char_is_alphanumeric(chars[idx]) == initial_is_alphanumeric
            && !char_is_whitespace(chars[idx])
            invariant
                col0 <= idx <= len,
                len == c.len(),
                c == chars@,
                skip_word_fwd(c, col0, initial_is_alphanumeric) == skip_word_fwd(
                    c,
                    idx as int,
                    initial_is_alphanumeric,
                ),
            decreases len - idx,
        {
            idx = idx + 1;
        }
        let ghost w = idx as int;
        while idx < len && char_is_whitespace(chars[idx])
            invariant
                w <= idx <= len,
                len == c.len(),
                c == chars@,
                skip_ws_fwd(c, w) == skip_ws_fwd(c, idx as int),
            decreases len - idx,
        {
            idx = idx + 1;
        }
        if idx >= len && self.position.row + 1 < lines.len() {
            self.position.row = self.position.row + 1;
            self.position.col = 0;
        } else {
            self.position.col = idx;
        }
    }

    /// Moves cursor backward by one word boundary.
    pub fn move_word_backward(&mut self, lines: &[String])
        requires
            lines@.len() > 0 && old(self).position.col > 0 ==> pos_in_bounds(
                lines@,
                old(self).position,
            ),
        ensures
            final(self).preferred_col is None,
            ({
                let p = old(self).position;
                if lines@.len() == 0 {
                    final(self).position == p
                } else if p.col == 0 {
                    if p.row > 0 {
                        final(self).position == CursorPosition {
                            row: (p.row - 1) as usize,
                            col: line_len(lines@, p.row - 1) as usize,
                        }
                    } else {
                        final(self).position == p
                    }
                } else {
                    final(self).position == CursorPosition {
                        row: p.row,
                        col: word_back_col(lines@[p.row as int]@, p.col as int) as usize,
                    }
                }
            }),
    {
        self.preferred_col = None;
        if lines.len() == 0 {
            return;
        }
        if self.position.col == 0 {
            if self.position.row > 0 {
                self.position.row = self.position.row - 1;
                self.position.col = get_line_char_count(lines, self.position.row);
            }
            return;
        }
        let chars = chars_of(lines[self.position.row].as_str());
        let ghost c = chars@;
        let ghost col0 = self.position.col as int;
        let mut idx = self.position.col;
        while idx > 0 && char_is_whitespace(chars[idx - 1])
            invariant
                0 <= idx <= col0 <= c.len(),
                c == chars@,
                skip_ws_back(c, col0) == skip_ws_back(c, idx as int),
            decreases idx,
        {
            idx = idx - 1;
        }
        if idx == 0 {
            self.position.col = 0;
            return;
        }
        let ghost w = idx as int;
        let initial_is_alphanumeric = char_is_alphanumeric(chars[idx - 1]);
        while idx > 0 && char_is_alphanumeric(chars[idx - 1]) == initial_is_alphanumeric
            && !char_is_whitespace(chars[idx - 1])
            invariant
                0 <= idx <= w <= c.len(),
                c == chars@,
                skip_word_back(c, w, initial_is_alphanumeric) == skip_word_back(
                    c,
                    idx as int,
                    initial_is_alphanumeric,
                ),
            decreases idx,
        {
            idx = idx - 1;
        }
        self.position.col = idx;
    }

    /// Clamps cursor position to ensure row and column remain within valid buffer bounds.
    pub fn clamp(&mut self, lines: &[String])
        ensures
            final(self).position == clamp_spec(lines@, old(self).position),
            final(self).preferred_col == old(self).preferred_col,
    {
        if lines.len() == 0 {
            self.position = CursorPosition::zero();
            return;
        }
        if self.position.row >= lines.len() {
            self.position.row = lines.len() - 1;
        }
        let char_count = get_line_char_count(lines, self.position.row);
        if self.position.col > char_count {
            self.position.col = char_count;
        }
    }
}

/// Clamping yields an in-bounds position when there is at least one line,
/// and leaves an in-bounds position unchanged.
pub proof fn lemma_clamp_in_bounds(lines: Seq<String>, p: CursorPosition)
    ensures
        lines.len() > 0 ==> pos_in_bounds(lines, clamp_spec(lines, p)),
        pos_in_bounds(lines, p) ==> clamp_spec(lines, p) == p,
        clamp_spec(lines, clamp_spec(lines, p)) == clamp_spec(lines, p),
{
}

} // verus!

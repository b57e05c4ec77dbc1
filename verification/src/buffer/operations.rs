//! Core line storage mutation operations.

use vstd::prelude::*;
use crate::buffer::cursor::{CursorPosition, pos_le};
use crate::buffer::errors::BufferError;
use crate::buffer::laws::{lemma_insert_text_joined, text_offset};
use crate::text::{
    char_count, chars_of, chars_range, concat_strs, join_lines, join_nl, split_newlines, split_nl,
    string_from_chars, string_of_range, view_lines,
};

verus! {

/// `min(a, b)` on integers.
pub open spec fn min_int(a: int, b: int) -> int {
    if a <= b { a } else { b }
}

/// The lines an operation works on: an empty vector counts as one empty line.
pub open spec fn with_one_line(ls: Seq<Seq<char>>) -> Seq<Seq<char>> {
    if ls.len() == 0 { seq![Seq::<char>::empty()] } else { ls }
}

/// Splitting line `row` at column `col` (clamped to the line's end).
pub open spec fn split_spec(ls: Seq<Seq<char>>, row: int, col: int) -> Seq<Seq<char>> {
    let line = ls[row];
    let c = min_int(col, line.len() as int);
    ls.update(row, line.take(c)).insert(row + 1, line.skip(c))
}

/// Appending line `row + 1` to line `row`.
pub open spec fn merge_spec(ls: Seq<Seq<char>>, row: int) -> Seq<Seq<char>> {
    ls.update(row, ls[row] + ls[row + 1]).remove(row + 1)
}

/// The parts of an insertion with `pre` prepended to the first part and
/// `suf` appended to the last part.
pub open spec fn glue(pre: Seq<char>, parts: Seq<Seq<char>>, suf: Seq<char>) -> Seq<Seq<char>> {
    let q = parts.update(0, pre + parts[0]);
    q.update(q.len() - 1, q[q.len() - 1] + suf)
}

/// Inserting `text` into line `row` at column `c` (`c` at most the line's length).
pub open spec fn insert_text_spec(ls: Seq<Seq<char>>, row: int, c: int, text: Seq<char>) -> Seq<
    Seq<char>,
> {
    let line = ls[row];
    ls.take(row) + glue(line.take(c), split_nl(text), line.skip(c)) + ls.skip(row + 1)
}

/// The cursor position right after inserting `text` at `(row, c)`.
pub open spec fn insert_text_end(row: int, c: int, text: Seq<char>) -> (int, int) {
    let parts = split_nl(text);
    if parts.len() == 1 {
        (row, c + text.len())
    } else {
        (row + parts.len() - 1, parts.last().len() as int)
    }
}

/// The text spanned from `(sr, sc)` to `(er, ec)` (columns already clamped).
pub open spec fn span_text(ls: Seq<Seq<char>>, sr: int, sc: int, er: int, ec: int) -> Seq<char> {
    if sr == er {
        if sc >= ec {
            Seq::empty()
        } else {
            ls[sr].subrange(sc, ec)
        }
    } else if sr < er {
        join_nl(seq![ls[sr].skip(sc)] + ls.subrange(sr + 1, er) + seq![ls[er].take(ec)])
    } else {
        Seq::empty()
    }
}

/// Removing the text from `(sr, sc)` to `(er, ec)` (columns already clamped, `sr <= er`).
pub open spec fn delete_span_spec(ls: Seq<Seq<char>>, sr: int, sc: int, er: int, ec: int) -> Seq<
    Seq<char>,
> {
    ls.take(sr) + seq![ls[sr].take(sc) + ls[er].skip(ec)] + ls.skip(er + 1)
}

/// The ordered endpoints `(s, e)` of a range given in either order.
pub open spec fn ordered(start: CursorPosition, end: CursorPosition) -> (
    CursorPosition,
    CursorPosition,
) {
    if pos_le(start, end) { (start, end) } else { (end, start) }
}

/// The clamped coordinates `(sr, sc, er, ec)` that a range deletion works on.
pub open spec fn range_coords(ls: Seq<Seq<char>>, start: CursorPosition, end: CursorPosition) -> (
    int,
    int,
    int,
    int,
) {
    let (s, e) = ordered(start, end);
    let er = min_int(e.row as int, ls.len() - 1);
    (
        s.row as int,
        min_int(s.col as int, ls[s.row as int].len() as int),
        er,
        min_int(e.col as int, ls[er].len() as int),
    )
}

/// A range deletion that would slice a line backwards: the end lies past the last
/// line, the start is on the last line, and the clamped end column precedes the
/// clamped start column.
pub open spec fn range_deletion_panics(
    ls: Seq<Seq<char>>,
    start: CursorPosition,
    end: CursorPosition,
) -> bool {
    let (s, e) = ordered(start, end);
    let (sr, sc, er, ec) = range_coords(ls, start, end);
    ls.len() > 0 && s.row < ls.len() && sr == er && sc > ec
}

/// The `InvalidPosition` error for a position.
pub open spec fn invalid_pos(p: CursorPosition) -> BufferError {
    BufferError::InvalidPosition { row: p.row, col: p.col }
}

/// Core line storage mutation operations.
pub struct BufferOperations;

/// Replaces line `row` with the given characters.
fn set_line(lines: &mut Vec<String>, row: usize, v: &Vec<char>)
    requires
        row < old(lines).len(),
    ensures
        view_lines(final(lines)@) == view_lines(old(lines)@).update(row as int, v@),
        final(lines).len() == old(lines).len(),
{
    let s = string_from_chars(v.as_slice());
    lines.set(row, s);
    assert(view_lines(lines@) =~= view_lines(old(lines)@).update(row as int, v@));
}

/// Makes an empty line vector hold one empty line.
fn ensure_one_line(lines: &mut Vec<String>)
    ensures
        view_lines(final(lines)@) == with_one_line(view_lines(old(lines)@)),
        final(lines).len() >= 1,
{
    if lines.len() == 0 {
        lines.push(String::new());
        assert(view_lines(lines@) =~= seq![Seq::<char>::empty()]);
    }
}

/// `v[..at] + ins + v[at..]`.
fn splice_chars(v: &Vec<char>, at: usize, ins: &Vec<char>) -> (res: Vec<char>)
    requires
        at <= v.len(),
    ensures
        res@ == v@.take(at as int) + ins@ + v@.skip(at as int),
{
    let mut res: Vec<char> = Vec::new();
    let mut i: usize = 0;
    while i < at
        invariant
            i <= at <= v.len(),
            res@ == v@.take(i as int),
        decreases at - i,
    {
        res.push(v[i]);
        assert(v@.take(i + 1) =~= v@.take(i as int).push(v@[i as int]));
        i = i + 1;
    }
    let mut j: usize = 0;
    while j < ins.len()
        invariant
            j <= ins.len(),
            res@ == v@.take(at as int) + ins@.take(j as int),
        decreases ins.len() - j,
    {
        res.push(ins[j]);
        assert(ins@.take(j + 1) =~= ins@.take(j as int).push(ins@[j as int]));
        j = j + 1;
    }
    let mut k: usize = at;
    while k < v.len()
        invariant
            at <= k <= v.len(),
            res@ == v@.take(at as int) + ins@ + v@.subrange(at as int, k as int),
        decreases v.len() - k,
    {
        res.push(v[k]);
        assert(v@.subrange(at as int, k + 1) =~= v@.subrange(at as int, k as int).push(
            v@[k as int],
        ));
        k = k + 1;
    }
    assert(ins@.take(ins.len() as int) =~= ins@);
    assert(v@.subrange(at as int, v.len() as int) =~= v@.skip(at as int));
    res
}

impl BufferOperations {
    /// Inserts a character into lines vector at given cursor position.
    pub fn insert_char(lines: &mut Vec<String>, pos: CursorPosition, ch: char) -> (r: Result<
        (),
        BufferError,
    >)
        ensures
            ({
                let base = with_one_line(view_lines(old(lines)@));
                let fin = view_lines(final(lines)@);
                if pos.row >= base.len() {
                    r == Err::<(), BufferError>(invalid_pos(pos)) && fin == base
                } else if ch == '\n' {
                    r is Ok && fin == split_spec(base, pos.row as int, pos.col as int)
                } else if pos.col > base[pos.row as int].len() {
                    r == Err::<(), BufferError>(invalid_pos(pos)) && fin == base
                } else {
                    r is Ok && fin == base.update(
                        pos.row as int,
                        base[pos.row as int].insert(pos.col as int, ch),
                    )
                }
            }),
            r is Ok && ch != '\n' ==> pos.col < usize::MAX,
            r is Ok && ch == '\n' ==> pos.row < usize::MAX,
    {
        ensure_one_line(lines);
        if pos.row >= lines.len() {
            return Err(BufferError::InvalidPosition { row: pos.row, col: pos.col });
        }
        if ch == '\n' {
            let r = Self::split_line(lines, pos);
            return Ok(());
        }
        let mut chars = chars_of(lines[pos.row].as_str());
        if pos.col > chars.len() {
            return Err(BufferError::InvalidPosition { row: pos.row, col: pos.col });
        }
        chars.insert(pos.col, ch);
        let new_len = chars.len();
        set_line(lines, pos.row, &chars);
        Ok(())
    }

    /// Inserts a string into lines vector at given cursor position.
    /// Returns the new resulting cursor position.
    pub fn insert_str(lines: &mut Vec<String>, pos: CursorPosition, text: &str) -> (r: Result<
        CursorPosition,
        BufferError,
    >)
        ensures
            ({
                let base = with_one_line(view_lines(old(lines)@));
                let fin = view_lines(final(lines)@);
                let parts = split_nl(text@);
                if pos.row >= base.len() {
                    r == Err::<CursorPosition, BufferError>(invalid_pos(pos)) && fin == base
                } else if parts.len() == 1 && pos.col > base[pos.row as int].len() {
                    r == Err::<CursorPosition, BufferError>(invalid_pos(pos)) && fin == base
                } else {
                    let c = min_int(pos.col as int, base[pos.row as int].len() as int);
                    let end = insert_text_end(pos.row as int, c, text@);
                    &&& fin == insert_text_spec(base, pos.row as int, c, text@)
                    &&& r matches Ok(p) && p.row == end.0 && p.col == end.1
                }
            }),
            ({
                let ls = view_lines(old(lines)@);
                let off = text_offset(ls, pos.row as int, pos.col as int);
                pos.row < ls.len() && pos.col <= ls[pos.row as int].len() ==> {
                    &&& join_nl(view_lines(final(lines)@)) == join_nl(ls).take(off) + text@ + join_nl(ls).skip(off)
                    &&& r matches Ok(p) && text_offset(view_lines(final(lines)@), p.row as int, p.col as int)
                        == off + text@.len()
                }
            }),
    {
        ensure_one_line(lines);
        let ghost base = view_lines(lines@);
        if pos.row >= lines.len() {
            return Err(BufferError::InvalidPosition { row: pos.row, col: pos.col });
        }
        let parts = split_newlines(text);
        let line_chars = chars_of(lines[pos.row].as_str());
        let ghost line = line_chars@;
        let ghost sp = split_nl(text@);
        assert(line == base[pos.row as int]);
        if parts.len() == 1 {
            if pos.col > line_chars.len() {
                return Err(BufferError::InvalidPosition { row: pos.row, col: pos.col });
            }
            let ins = chars_of(parts[0].as_str());
            assert(ins@ == sp[0]);
            proof {
                crate::text::lemma_join_split(text@);
                assert(join_nl(sp) == sp[0]);
            }
            let new_line = splice_chars(&line_chars, pos.col, &ins);
            let new_len = new_line.len();
            assert(new_len == pos.col + ins.len() + (line_chars.len() - pos.col));
            set_line(lines, pos.row, &new_line);
            proof {
                let c = pos.col as int;
                let g = glue(line.take(c), sp, line.skip(c));
                assert(g =~= seq![line.take(c) + sp[0] + line.skip(c)]);
                assert(view_lines(lines@) =~= insert_text_spec(base, pos.row as int, c, text@));
                if view_lines(old(lines)@).len() > 0 {
                    lemma_insert_text_joined(base, pos.row as int, c, text@);
                }
            }
            return Ok(CursorPosition::new(pos.row, pos.col + ins.len()));
        }
        let n = parts.len();
        let c = if pos.col <= line_chars.len() { pos.col } else { line_chars.len() };
        let prefix = string_of_range(&line_chars, 0, c);
        let suffix = string_of_range(&line_chars, c, line_chars.len());
        let first = concat_strs(prefix.as_str(), parts[0].as_str());
        lines.set(pos.row, first);
        let ghost head = base.take(pos.row as int) + seq![line.take(c as int) + sp[0]];
        let ghost tail = base.skip(pos.row + 1);
        assert(view_lines(lines@) =~= head + tail);
        let mut i: usize = 1;
        while i < n - 1
            invariant
                1 <= i <= n - 1,
                n == parts.len(),
                n == sp.len(),
                view_lines(parts@) == sp,
                pos.row < base.len(),
                view_lines(lines@) == head + sp.subrange(1, i as int) + tail,
                lines.len() == base.len() + i - 1,
                head.len() == pos.row + 1,
            decreases n - 1 - i,
        {
            let ghost prev = lines@;
            let item = parts[i].clone();
            lines.insert(pos.row + i, item);
            proof {
                crate::text::lemma_view_insert(prev, pos.row + i, item);
                assert(item@ == sp[i as int]);
                assert(view_lines(lines@) =~= head + sp.subrange(1, i + 1) + tail);
            }
            i = i + 1;
        }
        let last = concat_strs(parts[n - 1].as_str(), suffix.as_str());
        let cur_len = lines.len();
        assert(pos.row + (n - 1) <= cur_len);
        let ghost prev = lines@;
        lines.insert(pos.row + (n - 1), last);
        proof {
            crate::text::lemma_view_insert(prev, pos.row + (n - 1), last);
        }
        let final_col = char_count(parts[n - 1].as_str());
        proof {
            let cc = c as int;
            let g = glue(line.take(cc), sp, line.skip(cc));
            assert(g =~= seq![line.take(cc) + sp[0]] + sp.subrange(1, n - 1) + seq![sp[n - 1]
                + line.skip(cc)]);
            assert(view_lines(lines@) =~= insert_text_spec(base, pos.row as int, cc, text@));
            if view_lines(old(lines)@).len() > 0 && pos.col <= line.len() {
                lemma_insert_text_joined(base, pos.row as int, cc, text@);
            }
        }
        Ok(CursorPosition::new(pos.row + (n - 1), final_col))
    }

    /// Deletes character at specified cursor position.
    /// Returns the deleted character.
    pub fn delete_char(lines: &mut Vec<String>, pos: CursorPosition) -> (r: Result<
        char,
        BufferError,
    >)
        ensures
            ({
                let old_ls = view_lines(old(lines)@);
                let fin = view_lines(final(lines)@);
                if pos.row >= old_ls.len() || pos.col >= old_ls[pos.row as int].len() {
                    r == Err::<char, BufferError>(invalid_pos(pos)) && fin == old_ls
                } else {
                    &&& r == Ok::<char, BufferError>(old_ls[pos.row as int][pos.col as int])
                    &&& fin == old_ls.update(
                        pos.row as int,
                        old_ls[pos.row as int].remove(pos.col as int),
                    )
                }
            }),
    {
        if lines.len() == 0 || pos.row >= lines.len() {
            return Err(BufferError::InvalidPosition { row: pos.row, col: pos.col });
        }
        let mut chars = chars_of(lines[pos.row].as_str());
        if pos.col >= chars.len() {
            return Err(BufferError::InvalidPosition { row: pos.row, col: pos.col });
        }
        let deleted = chars.remove(pos.col);
        set_line(lines, pos.row, &chars);
        Ok(deleted)
    }

    /// Deletes text range `[start, end)` from lines vector.
    /// Returns deleted string.
    pub fn delete_range(lines: &mut Vec<String>, start: CursorPosition, end: CursorPosition) -> (r:
        Result<String, BufferError>)
        requires
            !range_deletion_panics(view_lines(old(lines)@), start, end),
        ensures
            ({
                let old_ls = view_lines(old(lines)@);
                let fin = view_lines(final(lines)@);
                let (s, e) = ordered(start, end);
                let (sr, sc, er, ec) = range_coords(old_ls, start, end);
                if old_ls.len() == 0 {
                    r == Err::<String, BufferError>(BufferError::EmptyBuffer) && fin == old_ls
                } else if s.row >= old_ls.len() {
                    r == Err::<String, BufferError>(invalid_pos(s)) && fin == old_ls
                } else {
                    &&& r matches Ok(t) && t@ == span_text(old_ls, sr, sc, er, ec)
                    &&& fin == delete_span_spec(old_ls, sr, sc, er, ec)
                }
            }),
    {
        if lines.len() == 0 {
            return Err(BufferError::EmptyBuffer);
        }
        let ghost old_ls = view_lines(lines@);
        let le = crate::buffer::cursor::position_le(start, end);
        let (s, e) = if le { (start, end) } else { (end, start) };
        if s.row >= lines.len() {
            return Err(BufferError::InvalidPosition { row: s.row, col: s.col });
        }
        let e_row = if e.row <= lines.len() - 1 { e.row } else { lines.len() - 1 };
        if s.row == e_row {
            let chars = chars_of(lines[s.row].as_str());
            let s_col = if s.col <= chars.len() { s.col } else { chars.len() };
            let e_col = if e.col <= chars.len() { e.col } else { chars.len() };
            let deleted = string_of_range(&chars, s_col, e_col);
            let before = chars_range(&chars, 0, s_col);
            let after = chars_range(&chars, e_col, chars.len());
            let mut joined = before;
            let mut k: usize = 0;
            while k < after.len()
                invariant
                    k <= after.len(),
                    joined@ == chars@.take(s_col as int) + after@.take(k as int),
                    joined.len() + after.len() - k <= chars.len(),
                decreases after.len() - k,
            {
                joined.push(after[k]);
                assert(after@.take(k + 1) =~= after@.take(k as int).push(after@[k as int]));
                k = k + 1;
            }
            assert(after@.take(after.len() as int) =~= after@);
            set_line(lines, s.row, &joined);
            proof {
                let l = old_ls[s.row as int];
                assert(l.skip(e_col as int) =~= after@);
                assert(view_lines(lines@) =~= delete_span_spec(
                    old_ls,
                    s.row as int,
                    s_col as int,
                    s.row as int,
                    e_col as int,
                ));
                if s_col >= e_col {
                    assert(deleted@ =~= Seq::<char>::empty());
                }
            }
            return Ok(deleted);
        }
        // the start row precedes the clamped end row here
        let first_chars = chars_of(lines[s.row].as_str());
        let s_col = if s.col <= first_chars.len() { s.col } else { first_chars.len() };
        let first_prefix = string_of_range(&first_chars, 0, s_col);
        let first_deleted = string_of_range(&first_chars, s_col, first_chars.len());
        let last_chars = chars_of(lines[e_row].as_str());
        let e_col = if e.col <= last_chars.len() { e.col } else { last_chars.len() };
        let last_deleted = string_of_range(&last_chars, 0, e_col);
        let last_suffix = string_of_range(&last_chars, e_col, last_chars.len());
        let mut deleted_parts: Vec<String> = Vec::new();
        deleted_parts.push(first_deleted);
        assert(view_lines(deleted_parts@) =~= seq![first_deleted@]);
        let mut r = s.row + 1;
        while r < e_row
            invariant
                s.row < r <= e_row < lines.len(),
                lines@ == old(lines)@,
                view_lines(lines@) == old_ls,
                view_lines(deleted_parts@) == seq![old_ls[s.row as int].skip(s_col as int)]
                    + old_ls.subrange(s.row + 1, r as int),
            decreases e_row - r,
        {
            let ghost prev = deleted_parts@;
            let item = lines[r].clone();
            deleted_parts.push(item);
            proof {
                crate::text::lemma_view_push(prev, item);
                assert(item@ == old_ls[r as int]);
            }
            assert(view_lines(deleted_parts@) =~= seq![old_ls[s.row as int].skip(s_col as int)]
                + old_ls.subrange(s.row + 1, r + 1));
            r = r + 1;
        }
        let ghost prev = deleted_parts@;
        deleted_parts.push(last_deleted);
        proof {
            crate::text::lemma_view_push(prev, last_deleted);
        }
        let deleted = join_lines(deleted_parts.as_slice());
        // remove the rows after the start row up to the end row
        let mut removed: usize = 0;
        while removed < e_row - s.row
            invariant
                s.row < e_row < old_ls.len(),
                removed <= e_row - s.row,
                view_lines(lines@) == old_ls.take(s.row + 1) + old_ls.skip(
                    s.row + 1 + removed,
                ),
                lines.len() == old_ls.len() - removed,
            decreases e_row - s.row - removed,
        {
            let ghost prev = lines@;
            lines.remove(s.row + 1);
            proof {
                crate::text::lemma_view_remove(prev, s.row + 1);
            }
            assert(view_lines(lines@) =~= old_ls.take(s.row + 1) + old_ls.skip(
                s.row + 1 + removed + 1,
            ));
            removed = removed + 1;
        }
        let merged = concat_strs(first_prefix.as_str(), last_suffix.as_str());
        let ghost prev = lines@;
        lines.set(s.row, merged);
        proof {
            crate::text::lemma_view_update(prev, s.row as int, merged);
            assert(old_ls.take(s.row + 1) + old_ls.skip(s.row + 1 + (e_row - s.row)) =~= old_ls.take(s.row + 1) + old_ls.skip(e_row + 1));
        }
        proof {
            assert(view_lines(deleted_parts@) =~= seq![old_ls[s.row as int].skip(s_col as int)]
                + old_ls.subrange(s.row + 1, e_row as int) + seq![
                old_ls[e_row as int].take(e_col as int)]);
            assert(view_lines(lines@) =~= delete_span_spec(
                old_ls,
                s.row as int,
                s_col as int,
                e_row as int,
                e_col as int,
            ));
        }
        Ok(deleted)
    }

    /// Splits line at specified position into two lines.
    pub fn split_line(lines: &mut Vec<String>, pos: CursorPosition) -> (r: Result<(), BufferError>)
        ensures
            ({
                let old_ls = view_lines(old(lines)@);
                let fin = view_lines(final(lines)@);
                if old_ls.len() == 0 {
                    r is Ok && fin == seq![Seq::<char>::empty(), Seq::<char>::empty()]
                } else if pos.row >= old_ls.len() {
                    r == Err::<(), BufferError>(invalid_pos(pos)) && fin == old_ls
                } else {
                    r is Ok && fin == split_spec(old_ls, pos.row as int, pos.col as int)
                }
            }),
            r is Ok && old(lines)@.len() > 0 ==> pos.row < usize::MAX,
    {
        if lines.len() == 0 {
            lines.push(String::new());
            lines.push(String::new());
            assert(view_lines(lines@) =~= seq![Seq::<char>::empty(), Seq::<char>::empty()]);
            return Ok(());
        }
        if pos.row >= lines.len() {
            return Err(BufferError::InvalidPosition { row: pos.row, col: pos.col });
        }
        let ghost old_ls = view_lines(lines@);
        let chars = chars_of(lines[pos.row].as_str());
        let split_col = if pos.col <= chars.len() { pos.col } else { chars.len() };
        let line1 = string_of_range(&chars, 0, split_col);
        let line2 = string_of_range(&chars, split_col, chars.len());
        lines.set(pos.row, line1);
        lines.insert(pos.row + 1, line2);
        let new_len = lines.len();
        assert(view_lines(lines@) =~= split_spec(old_ls, pos.row as int, pos.col as int));
        Ok(())
    }

    /// Merges line at `row` with line `row + 1`.
    /// Returns column offset where second line was appended.
    pub fn merge_lines(lines: &mut Vec<String>, row: usize) -> (r: Result<usize, BufferError>)
        ensures
            ({
                let old_ls = view_lines(old(lines)@);
                let fin = view_lines(final(lines)@);
                if row + 1 >= old_ls.len() {
                    r == Err::<usize, BufferError>(BufferError::InvalidPosition { row, col: 0 })
                        && fin == old_ls
                } else {
                    r == Ok::<usize, BufferError>(old_ls[row as int].len() as usize) && fin
                        == merge_spec(old_ls, row as int)
                }
            }),
    {
        if lines.len() == 0 || row >= lines.len() - 1 {
            return Err(BufferError::InvalidPosition { row, col: 0 });
        }
        let ghost old_ls = view_lines(lines@);
        let second_line = lines.remove(row + 1);
        let col_offset = char_count(lines[row].as_str());
        let merged = concat_strs(lines[row].as_str(), second_line.as_str());
        lines.set(row, merged);
        assert(view_lines(lines@) =~= merge_spec(old_ls, row as int));
        Ok(col_offset)
    }
}

/// Splitting a line and merging it back restores the lines.
pub proof fn lemma_merge_after_split(ls: Seq<Seq<char>>, row: int, col: int)
    requires
        0 <= row < ls.len(),
        0 <= col <= ls[row].len(),
    ensures
        merge_spec(split_spec(ls, row, col), row) == ls,
{
    let line = ls[row];
    assert(line.take(col) + line.skip(col) =~= line);
    assert(merge_spec(split_spec(ls, row, col), row) =~= ls);
}

/// Merging two lines and splitting at the returned offset restores the lines.
pub proof fn lemma_split_after_merge(ls: Seq<Seq<char>>, row: int)
    requires
        0 <= row,
        row + 1 < ls.len(),
    ensures
        split_spec(merge_spec(ls, row), row, ls[row].len() as int) == ls,
{
    let a = ls[row];
    let b = ls[row + 1];
    assert((a + b).take(a.len() as int) =~= a);
    assert((a + b).skip(a.len() as int) =~= b);
    assert(split_spec(merge_spec(ls, row), row, a.len() as int) =~= ls);
}

/// Inserting a character and deleting the character at the same place restores the line.
pub proof fn lemma_delete_after_insert(line: Seq<char>, col: int, ch: char)
    requires
        0 <= col <= line.len(),
    ensures
        line.insert(col, ch).remove(col) == line,
        line.insert(col, ch)[col] == ch,
{
    assert(line.insert(col, ch).remove(col) =~= line);
}

} // verus!

verus! {

/// Lines after `insert_char`, and whether it succeeded.
pub open spec fn op_insert_char(ls: Seq<Seq<char>>, pos: CursorPosition, ch: char) -> (Seq<Seq<char>>, bool) {
    let base = with_one_line(ls);
    if pos.row >= base.len() {
        (base, false)
    } else if ch == '\n' {
        (split_spec(base, pos.row as int, pos.col as int), true)
    } else if pos.col > base[pos.row as int].len() {
        (base, false)
    } else {
        (base.update(pos.row as int, base[pos.row as int].insert(pos.col as int, ch)), true)
    }
}

/// Lines after `insert_str`, and whether it succeeded.
pub open spec fn op_insert_text(ls: Seq<Seq<char>>, pos: CursorPosition, text: Seq<char>) -> (Seq<Seq<char>>, bool) {
    let base = with_one_line(ls);
    if pos.row >= base.len() {
        (base, false)
    } else if split_nl(text).len() == 1 && pos.col > base[pos.row as int].len() {
        (base, false)
    } else {
        let c = min_int(pos.col as int, base[pos.row as int].len() as int);
        (insert_text_spec(base, pos.row as int, c, text), true)
    }
}

/// The position `insert_str` returns on success.
pub open spec fn op_insert_text_end(ls: Seq<Seq<char>>, pos: CursorPosition, text: Seq<char>) -> CursorPosition {
    let base = with_one_line(ls);
    let c = min_int(pos.col as int, base[pos.row as int].len() as int);
    let e = insert_text_end(pos.row as int, c, text);
    CursorPosition { row: e.0 as usize, col: e.1 as usize }
}

/// Lines after `delete_char`, and whether it succeeded.
pub open spec fn op_delete_char(ls: Seq<Seq<char>>, pos: CursorPosition) -> (Seq<Seq<char>>, bool) {
    if pos.row >= ls.len() || pos.col >= ls[pos.row as int].len() {
        (ls, false)
    } else {
        (ls.update(pos.row as int, ls[pos.row as int].remove(pos.col as int)), true)
    }
}

/// Lines after `delete_range`, and whether it succeeded.
pub open spec fn op_delete_range(ls: Seq<Seq<char>>, start: CursorPosition, end: CursorPosition) -> (Seq<Seq<char>>, bool) {
    let (s, e) = ordered(start, end);
    let (sr, sc, er, ec) = range_coords(ls, start, end);
    if ls.len() == 0 || s.row >= ls.len() {
        (ls, false)
    } else {
        (delete_span_spec(ls, sr, sc, er, ec), true)
    }
}

/// The text `delete_range` returns on success.
pub open spec fn op_deleted_text(ls: Seq<Seq<char>>, start: CursorPosition, end: CursorPosition) -> Seq<char> {
    let (sr, sc, er, ec) = range_coords(ls, start, end);
    span_text(ls, sr, sc, er, ec)
}

/// Lines after `split_line`, and whether it succeeded.
pub open spec fn op_split(ls: Seq<Seq<char>>, pos: CursorPosition) -> (Seq<Seq<char>>, bool) {
    if ls.len() == 0 {
        (seq![Seq::<char>::empty(), Seq::<char>::empty()], true)
    } else if pos.row >= ls.len() {
        (ls, false)
    } else {
        (split_spec(ls, pos.row as int, pos.col as int), true)
    }
}

/// Lines after `merge_lines`, and whether it succeeded.
pub open spec fn op_merge(ls: Seq<Seq<char>>, row: usize) -> (Seq<Seq<char>>, bool) {
    if row + 1 >= ls.len() {
        (ls, false)
    } else {
        (merge_spec(ls, row as int), true)
    }
}

} // verus!

//! Laws that relate several buffer operations: what undo gives back of an edit,
//! and what redo gives back of an undo.

use vstd::prelude::*;
use crate::buffer::commands::{CommandView, inverse_spec};
use crate::buffer::history::GroupView;
use crate::buffer::model::{
    BufferModel, apply_cmd, undo_safe, buffer_wf, can_redo_safely, can_undo_safely, in_bounds, insert_char_spec,
    insert_str_spec, push_group_spec, redo_spec, undo_spec, without_selection, delete_char_spec,
};
use crate::buffer::commands::inserted_end;
use crate::buffer::cursor::{CursorPosition, pos_le};
use crate::buffer::errors::BufferError;
use crate::buffer::clipboard::clip_text;
use crate::buffer::model::{
    clamp_view, cleared, copy_spec, cut_spec, delete_backspace_spec, delete_line_spec, delete_selection_spec,
    line_range, paste_spec, record,
};
use crate::buffer::selection::range_spec;
use crate::buffer::operations::{
    glue, insert_text_spec, lemma_delete_after_insert, lemma_merge_after_split, lemma_split_after_merge,
    op_delete_range, op_deleted_text, op_insert_text, ordered, range_coords, range_deletion_panics,
};
use crate::text::{join_nl, no_newline, split_nl};

verus! {

/// The group just pushed is the last group of the undo stack.
proof fn lemma_pushed_group_is_last(undo: Seq<GroupView>, max: usize, g: GroupView)
    requires
        max >= 1,
    ensures
        push_group_spec(undo, max, g).len() > 0,
        push_group_spec(undo, max, g).last() == g,
{
    let u = undo.push(g);
    if u.len() > max {
        assert(u.remove(0).last() == u.last());
    }
}

/// No line holds a line break.
pub open spec fn lines_plain(ls: Seq<Seq<char>>) -> bool {
    forall|i: int| 0 <= i < ls.len() ==> no_newline(#[trigger] ls[i])
}

/// Clamping an in-bounds position leaves it as it is.
proof fn lemma_clamp_in_bounds(ls: Seq<Seq<char>>, p: CursorPosition)
    requires
        in_bounds(ls, p),
    ensures
        clamp_view(ls, p) == p,
{
}

/// Recording a group of one command whose inverse takes the edited lines back to
/// `ls`: undo then succeeds, gives back `ls` and puts the cursor at the group's
/// starting position.
proof fn lemma_undo_single(m1: BufferModel, g: GroupView, ls: Seq<Seq<char>>)
    requires
        m1.max_levels >= 1,
        g.commands.len() == 1,
        crate::buffer::commands::inverse_fits(g.commands[0]),
        !crate::buffer::model::cmd_panics(m1.lines, inverse_spec(g.commands[0])),
        apply_cmd(m1.lines, inverse_spec(g.commands[0])) == (ls, Ok::<(), BufferError>(())),
        !crate::buffer::model::cmd_panics(ls, g.commands[0]),
        apply_cmd(ls, g.commands[0]) == (m1.lines, Ok::<(), BufferError>(())),
    ensures
        can_undo_safely(record(m1, g)),
        undo_spec(record(m1, g)).1 is Ok,
        undo_spec(record(m1, g)).0.lines == ls,
        undo_spec(record(m1, g)).0.cursor.position == clamp_view(ls, g.cursor_before),
        can_redo_safely(undo_spec(record(m1, g)).0),
        redo_spec(undo_spec(record(m1, g)).0).1 is Ok,
        redo_spec(undo_spec(record(m1, g)).0).0.lines == m1.lines,
{
    reveal_with_fuel(undo_safe, 2);
    reveal_with_fuel(crate::buffer::model::undo_apply, 2);
    reveal_with_fuel(crate::buffer::model::redo_safe, 2);
    reveal_with_fuel(crate::buffer::model::redo_apply, 2);
    lemma_pushed_group_is_last(m1.undo, m1.max_levels, g);
    assert(g.commands.drop_last() =~= Seq::<CommandView>::empty());
    assert(g.commands.drop_first() =~= Seq::<CommandView>::empty());
    assert(g.commands.last() == g.commands[0]);
    assert(undo_spec(record(m1, g)).0.redo.last() == g);
}

/// A split has a single part exactly when that part is the whole text.
proof fn lemma_single_part(t: Seq<char>)
    requires
        split_nl(t).len() == 1,
    ensures
        split_nl(t) == seq![t],
{
    crate::text::lemma_join_split(t);
    assert(split_nl(t) =~= seq![split_nl(t)[0]]);
}

/// Deleting from an insertion's position to the end it covers gives back the lines.
proof fn lemma_delete_inserted(ls: Seq<Seq<char>>, pos: CursorPosition, text: Seq<char>)
    requires
        pos.row < ls.len(),
        pos.col <= ls[pos.row as int].len(),
        inserted_end(pos, text).0 <= usize::MAX,
        inserted_end(pos, text).1 <= usize::MAX,
    ensures
        op_insert_text(ls, pos, text).1,
        !crate::buffer::model::cmd_panics(
            op_insert_text(ls, pos, text).0,
            inverse_spec(CommandView::InsertText { pos, text }),
        ),
        apply_cmd(op_insert_text(ls, pos, text).0, inverse_spec(CommandView::InsertText { pos, text }))
            == (ls, Ok::<(), BufferError>(())),
{
    let parts = split_nl(text);
    crate::text::lemma_split_nl_nonempty(text);
    let k = parts.len() as int;
    let row = pos.row as int;
    let c = pos.col as int;
    let line = ls[row];
    let pre = line.take(c);
    let suf = line.skip(c);
    let g = glue(pre, parts, suf);
    let l1 = ls.take(row) + g + ls.skip(row + 1);
    assert(op_insert_text(ls, pos, text).0 == l1);
    let e = inserted_end(pos, text);
    let end = CursorPosition { row: e.0 as usize, col: e.1 as usize };
    assert(l1.len() == ls.len() + k - 1);
    if k == 1 {
        lemma_single_part(text);
        assert(g =~= seq![pre + text + suf]);
        assert(l1[row] == pre + text + suf);
        assert(pos_le(pos, end));
        assert(ordered(pos, end) == (pos, end));
        assert(range_coords(l1, pos, end) == (row, c, row, c + text.len()));
        assert((pre + text + suf).take(c) =~= pre);
        assert((pre + text + suf).skip(c + text.len()) =~= suf);
        assert(pre + suf =~= line);
        assert(op_delete_range(l1, pos, end).0 =~= ls);
    } else {
        assert(l1[row] == pre + parts[0]);
        assert(l1[row + k - 1] == parts[k - 1] + suf);
        assert(pos_le(pos, end));
        assert(ordered(pos, end) == (pos, end));
        assert(range_coords(l1, pos, end) == (row, c, row + k - 1, parts[k - 1].len() as int));
        assert((pre + parts[0]).take(c) =~= pre);
        assert((parts[k - 1] + suf).skip(parts[k - 1].len() as int) =~= suf);
        assert(pre + suf =~= line);
        assert(l1.skip(row + k) =~= ls.skip(row + 1));
        assert(l1.take(row) =~= ls.take(row));
        assert(op_delete_range(l1, pos, end).0 =~= ls);
    }
}

/// Inserting the text of a deleted range at its start gives back the lines.
proof fn lemma_insert_deleted(ls: Seq<Seq<char>>, s: CursorPosition, e: CursorPosition)
    requires
        lines_plain(ls),
        in_bounds(ls, s),
        e.row < ls.len(),
        pos_le(s, e),
    ensures
        !range_deletion_panics(ls, s, e),
        op_delete_range(ls, s, e).1,
        apply_cmd(
            op_delete_range(ls, s, e).0,
            CommandView::InsertText { pos: s, text: op_deleted_text(ls, s, e) },
        ) == (ls, Ok::<(), BufferError>(())),
{
    let (sr, sc, er, ec) = range_coords(ls, s, e);
    assert(ordered(s, e) == (s, e));
    assert(sr == s.row && sc == s.col && er == e.row);
    let t = op_deleted_text(ls, s, e);
    let d = op_delete_range(ls, s, e).0;
    assert(d == ls.take(sr) + seq![ls[sr].take(sc) + ls[er].skip(ec)] + ls.skip(er + 1));
    assert(d[sr] == ls[sr].take(sc) + ls[er].skip(ec));
    assert(d.len() == ls.len() - (er - sr));
    if sr == er {
        assert(sc <= ec);
        let line = ls[sr];
        let mid = line.subrange(sc, ec);
        assert(t =~= mid);
        assert(no_newline(line));
        assert(no_newline(mid));
        crate::text::lemma_split_nl_single(mid);
        assert(split_nl(t) == seq![mid]);
        assert(d[sr].take(sc) =~= line.take(sc));
        assert(d[sr].skip(sc) =~= line.skip(ec));
        assert(line.take(sc) + mid + line.skip(ec) =~= line);
        let gl = glue(line.take(sc), seq![mid], line.skip(ec));
        assert(gl[0] == line.take(sc) + mid + line.skip(ec));
        assert(gl =~= seq![line]);
        assert(insert_text_spec(d, sr, sc, t) =~= ls);
    } else {
        let parts = seq![ls[sr].skip(sc)] + ls.subrange(sr + 1, er) + seq![ls[er].take(ec)];
        assert(t == join_nl(parts));
        assert forall|i: int| 0 <= i < parts.len() implies no_newline(#[trigger] parts[i]) by {
            if i == 0 {
                assert(no_newline(ls[sr]));
            } else if i == parts.len() - 1 {
                assert(no_newline(ls[er]));
            } else {
                assert(parts[i] == ls[sr + i]);
                assert(no_newline(ls[sr + i]));
            }
        }
        crate::text::lemma_split_join(parts);
        let pre = d[sr].take(sc);
        let suf = d[sr].skip(sc);
        assert(pre =~= ls[sr].take(sc));
        assert(suf =~= ls[er].skip(ec));
        let gl = glue(pre, parts, suf);
        assert(ls[sr].take(sc) + ls[sr].skip(sc) =~= ls[sr]);
        assert(ls[er].take(ec) + ls[er].skip(ec) =~= ls[er]);
        assert(gl =~= ls.subrange(sr, er + 1));
        assert(d.take(sr) =~= ls.take(sr));
        assert(d.skip(sr + 1) =~= ls.skip(er + 1));
        assert(insert_text_spec(d, sr, sc, t) =~= ls);
    }
}

/// The number of line breaks in a text.
pub open spec fn newline_count(t: Seq<char>) -> nat
    decreases t.len(),
{
    if t.len() == 0 {
        0
    } else {
        newline_count(t.drop_last()) + if t.last() == '\n' { 1nat } else { 0nat }
    }
}

/// A split has one part more than the text has line breaks.
proof fn lemma_split_count(t: Seq<char>)
    ensures
        split_nl(t).len() == newline_count(t) + 1,
    decreases t.len(),
{
    if t.len() > 0 {
        lemma_split_count(t.drop_last());
        crate::text::lemma_split_nl_nonempty(t.drop_last());
    }
}

/// The position right after an insertion at `(row, c)`: on the same line, after
/// the inserted characters, when the text holds no line break; otherwise as many
/// lines down as the text has line breaks, after the text's last line.
pub proof fn lemma_insert_end_position(row: int, c: int, t: Seq<char>)
    ensures
        crate::buffer::operations::insert_text_end(row, c, t) == if newline_count(t) == 0 {
            (row, c + t.len())
        } else {
            (row + newline_count(t), split_nl(t).last().len() as int)
        },
{
    lemma_split_count(t);
}

/// True when the text holds no carriage return.
pub open spec fn no_cr(t: Seq<char>) -> bool {
    forall|i: int| 0 <= i < t.len() ==> t[i] != '\r'
}

/// The parts of a text without carriage returns hold none, and there is one part
/// more than there are line breaks.
proof fn lemma_split_parts_no_cr(t: Seq<char>)
    requires
        no_cr(t),
    ensures
        split_nl(t).len() == newline_count(t) + 1,
        forall|j: int| 0 <= j < split_nl(t).len() ==> no_cr(#[trigger] split_nl(t)[j]),
    decreases t.len(),
{
    if t.len() > 0 {
        let u = t.drop_last();
        assert forall|i: int| 0 <= i < u.len() implies u[i] != '\r' by {
            assert(u[i] == t[i]);
        }
        lemma_split_parts_no_cr(u);
        crate::text::lemma_split_nl_nonempty(u);
        let p = split_nl(u);
        if t.last() != '\n' {
            let q = p.update(p.len() - 1, p.last().push(t.last()));
            assert forall|j: int| 0 <= j < q.len() implies no_cr(#[trigger] q[j]) by {
                if j == p.len() - 1 {
                    assert(t.last() == t[t.len() - 1]);
                    assert forall|i: int| 0 <= i < q[j].len() implies q[j][i] != '\r' by {
                        if i < p.last().len() {
                            assert(q[j][i] == p[j][i]);
                        }
                    }
                }
            }
        } else {
            let q = p.push(Seq::<char>::empty());
            assert forall|j: int| 0 <= j < q.len() implies no_cr(#[trigger] q[j]) by {
                if j < p.len() {
                    assert(q[j] == p[j]);
                }
            }
        }
    }
}

/// A buffer made from a text without carriage returns gives the text back, and
/// holds one line more than the text has line breaks.
pub proof fn lemma_text_round_trip(t: Seq<char>)
    requires
        no_cr(t),
    ensures
        join_nl(crate::buffer::model::text_lines(t)) == t,
        crate::buffer::model::text_lines(t).len() == newline_count(t) + 1,
{
    if t.len() == 0 {
        assert(join_nl(seq![Seq::<char>::empty()]) == Seq::<char>::empty());
    } else {
        lemma_split_parts_no_cr(t);
        let p = split_nl(t);
        let q = p.map_values(|l: Seq<char>| crate::text::strip_trailing_cr(l));
        assert forall|j: int| 0 <= j < p.len() implies q[j] == p[j] by {
            let l = p[j];
            assert(no_cr(l));
            if l.len() > 0 {
                assert(l.last() == l[l.len() - 1]);
            }
        }
        assert(q =~= p);
        crate::text::lemma_join_split(t);
    }
}

/// Joining two non-empty runs of parts puts one line break between them.
proof fn lemma_join_concat(a: Seq<Seq<char>>, b: Seq<Seq<char>>)
    requires
        a.len() > 0,
        b.len() > 0,
    ensures
        join_nl(a + b) == join_nl(a) + seq!['\n'] + join_nl(b),
    decreases b.len(),
{
    if b.len() == 1 {
        assert((a + b).drop_last() =~= a);
        assert((a + b).last() == b[0]);
    } else {
        let b1 = b.drop_last();
        lemma_join_concat(a, b1);
        assert((a + b).drop_last() =~= a + b1);
        assert((a + b).last() == b.last());
        assert(join_nl(b) == join_nl(b1) + seq!['\n'] + b.last());
        assert(join_nl(a + b) =~= join_nl(a) + seq!['\n'] + join_nl(b));
    }
}

/// Appending to the last part appends to the joined text.
proof fn lemma_join_extend_last(p: Seq<Seq<char>>, x: Seq<char>)
    requires
        p.len() > 0,
    ensures
        join_nl(p.update(p.len() - 1, p.last() + x)) == join_nl(p) + x,
{
    let q = p.update(p.len() - 1, p.last() + x);
    if p.len() == 1 {
        assert(join_nl(q) == q[0]);
    } else {
        assert(q.drop_last() =~= p.drop_last());
        assert(join_nl(q) =~= join_nl(p) + x);
    }
}

/// Prepending to the first part prepends to the joined text.
proof fn lemma_join_extend_first(p: Seq<Seq<char>>, x: Seq<char>)
    requires
        p.len() > 0,
    ensures
        join_nl(p.update(0, x + p[0])) == x + join_nl(p),
    decreases p.len(),
{
    let q = p.update(0, x + p[0]);
    if p.len() == 1 {
        assert(join_nl(q) == q[0]);
    } else {
        let d = p.drop_last();
        lemma_join_extend_first(d, x);
        assert(q.drop_last() =~= d.update(0, x + d[0]));
        assert(q.last() == p.last());
        assert(join_nl(q) =~= x + join_nl(p));
    }
}

/// The text before a run of parts in a join: the joined earlier parts and a line
/// break, or nothing when there are none.
pub open spec fn text_before(a: Seq<Seq<char>>) -> Seq<char> {
    if a.len() == 0 { Seq::empty() } else { join_nl(a) + seq!['\n'] }
}

/// The text after a run of parts in a join: a line break and the joined later
/// parts, or nothing when there are none.
pub open spec fn text_after(b: Seq<Seq<char>>) -> Seq<char> {
    if b.len() == 0 { Seq::empty() } else { seq!['\n'] + join_nl(b) }
}

/// Joining a run of parts between others.
proof fn lemma_join_around(a: Seq<Seq<char>>, m: Seq<Seq<char>>, b: Seq<Seq<char>>)
    requires
        m.len() > 0,
    ensures
        join_nl(a + m + b) == text_before(a) + join_nl(m) + text_after(b),
{
    if a.len() > 0 {
        lemma_join_concat(a, m);
    } else {
        assert(a + m =~= m);
    }
    if b.len() > 0 {
        lemma_join_concat(a + m, b);
    } else {
        assert(a + m + b =~= a + m);
    }
    assert(join_nl(a + m + b) =~= text_before(a) + join_nl(m) + text_after(b));
}

/// The offset in the joined text of column `c` of line `row`.
pub open spec fn text_offset(ls: Seq<Seq<char>>, row: int, c: int) -> int {
    text_before(ls.take(row)).len() + c
}

/// Inserting a text into the lines at `(row, c)` inserts it into their joined text
/// at the offset of that position: the new text is the old text up to the offset,
/// then the inserted text, then the rest of the old text.
pub proof fn lemma_insert_text_joined(ls: Seq<Seq<char>>, row: int, c: int, t: Seq<char>)
    requires
        0 <= row < ls.len(),
        0 <= c <= ls[row].len(),
    ensures
        join_nl(insert_text_spec(ls, row, c, t)) == join_nl(ls).take(text_offset(ls, row, c)) + t + join_nl(
            ls,
        ).skip(text_offset(ls, row, c)),
        text_offset(
            insert_text_spec(ls, row, c, t),
            crate::buffer::operations::insert_text_end(row, c, t).0,
            crate::buffer::operations::insert_text_end(row, c, t).1,
        ) == text_offset(ls, row, c) + t.len(),
{
    let line = ls[row];
    let pre = line.take(c);
    let suf = line.skip(c);
    let a = ls.take(row);
    let b = ls.skip(row + 1);
    let parts = split_nl(t);
    crate::text::lemma_split_nl_nonempty(t);
    crate::text::lemma_join_split(t);
    let q = parts.update(0, pre + parts[0]);
    lemma_join_extend_first(parts, pre);
    lemma_join_extend_last(q, suf);
    let g = glue(pre, parts, suf);
    assert(join_nl(g) == pre + t + suf);
    lemma_join_around(a, g, b);
    assert(insert_text_spec(ls, row, c, t) == a + g + b);
    lemma_join_around(a, seq![line], b);
    assert(a + seq![line] + b =~= ls);
    assert(join_nl(seq![line]) == line);
    let whole = text_before(a) + line + text_after(b);
    assert(join_nl(ls) == whole);
    let off = text_offset(ls, row, c);
    assert(pre + suf =~= line);
    assert(whole.take(off) =~= text_before(a) + pre);
    assert(whole.skip(off) =~= suf + text_after(b));
    assert(join_nl(insert_text_spec(ls, row, c, t)) =~= whole.take(off) + t + whole.skip(off));
    let k = parts.len() as int;
    let nl = a + g + b;
    if k == 1 {
        assert(nl.take(row) =~= a);
    } else {
        let er = row + k - 1;
        let gt = g.take(k - 1);
        assert(nl.take(er) =~= a + gt);
        let pt = parts.take(k - 1);
        assert(gt =~= pt.update(0, pre + pt[0]));
        lemma_join_extend_first(pt, pre);
        assert(join_nl(gt) == pre + join_nl(pt));
        assert(pt =~= parts.drop_last());
        assert(join_nl(parts) == join_nl(pt) + seq!['\n'] + parts.last());
        if a.len() > 0 {
            lemma_join_concat(a, gt);
        } else {
            assert(a + gt =~= gt);
        }
        assert(text_before(a + gt).len() == text_before(a).len() + join_nl(gt).len() + 1);
    }
}

/// Inserting a character at an in-bounds cursor with no active selection and then
/// undoing gives back the lines and the cursor position; redoing after that gives
/// back the lines and the cursor position of the edit.
pub proof fn lemma_undo_reverts_insert_char(m: BufferModel, ch: char)
    requires
        buffer_wf(m),
        !m.selection.is_active,
        in_bounds(m.lines, m.cursor.position),
        m.cursor.position.row < usize::MAX,
        m.cursor.position.col < usize::MAX,
    ensures
        ({
            let (m1, r1) = insert_char_spec(m, ch);
            let (m2, r2) = undo_spec(m1);
            let (m3, r3) = redo_spec(m2);
            &&& r1 is Ok
            &&& can_undo_safely(m1)
            &&& r2 is Ok
            &&& m2.lines == m.lines
            &&& m2.cursor.position == m.cursor.position
            &&& can_redo_safely(m2)
            &&& r3 is Ok
            &&& m3.lines == m1.lines
            &&& m3.cursor.position == m1.cursor.position
        }),
{
    let pos = m.cursor.position;
    let row = pos.row as int;
    let col = pos.col as int;
    reveal_with_fuel(undo_safe, 2);
    reveal_with_fuel(crate::buffer::model::undo_apply, 2);
    reveal_with_fuel(crate::buffer::model::redo_safe, 2);
    reveal_with_fuel(crate::buffer::model::redo_apply, 2);
    assert(without_selection(m) == m);
    let (m1, r1) = insert_char_spec(m, ch);
    let cmd = if ch == '\n' {
        CommandView::SplitLine { pos }
    } else {
        CommandView::InsertChar { pos, ch }
    };
    let g = m1.undo.last();
    lemma_pushed_group_is_last(
        m.undo,
        m.max_levels,
        GroupView {
            commands: seq![cmd],
            cursor_before: pos,
            cursor_after: m1.cursor.position,
            selection_before: None,
            selection_after: None,
        },
    );
    assert(g.commands == seq![cmd]);
    assert(seq![cmd].drop_last() =~= Seq::<CommandView>::empty());
    assert(seq![cmd].drop_first() =~= Seq::<CommandView>::empty());
    if ch == '\n' {
        lemma_merge_after_split(m.lines, row, col);
    } else {
        lemma_delete_after_insert(m.lines[row], col, ch);
        assert(m1.lines.update(row, m1.lines[row].remove(col)) =~= m.lines);
    }
    assert(apply_cmd(m1.lines, inverse_spec(cmd)).0 == m.lines);
    assert(can_undo_safely(m1));
    let (m2, r2) = undo_spec(m1);
    assert(m2.redo.last() == g);
    assert(can_redo_safely(m2));
}

/// A split has at most one part more than the text has characters, and its last
/// part is no longer than the text.
proof fn lemma_split_nl_bounds(t: Seq<char>)
    ensures
        split_nl(t).len() <= t.len() + 1,
        split_nl(t).len() >= 1,
        split_nl(t).last().len() <= t.len(),
    decreases t.len(),
{
    crate::text::lemma_split_nl_nonempty(t);
    if t.len() > 0 {
        lemma_split_nl_bounds(t.drop_last());
    }
}

/// Inserting a non-empty text (of any number of lines) at an in-bounds cursor with
/// no active selection and then undoing gives back the lines and the cursor
/// position; redoing after that
/// gives back the lines of the edit.
pub proof fn lemma_undo_reverts_insert_str(m: BufferModel, text: Seq<char>)
    requires
        buffer_wf(m),
        !m.selection.is_active,
        in_bounds(m.lines, m.cursor.position),
        text.len() > 0,
        m.cursor.position.row + text.len() <= usize::MAX,
        m.cursor.position.col + text.len() <= usize::MAX,
    ensures
        ({
            let (m1, r1) = insert_str_spec(m, text);
            let (m2, r2) = undo_spec(m1);
            let (m3, r3) = redo_spec(m2);
            &&& r1 is Ok
            &&& can_undo_safely(m1)
            &&& r2 is Ok
            &&& m2.lines == m.lines
            &&& m2.cursor.position == m.cursor.position
            &&& can_redo_safely(m2)
            &&& r3 is Ok
            &&& m3.lines == m1.lines
        }),
{
    let pos = m.cursor.position;
    assert(without_selection(m) == m);
    lemma_split_nl_bounds(text);
    lemma_delete_inserted(m.lines, pos, text);
    let (ls, ok) = op_insert_text(m.lines, pos, text);
    let newpos = crate::buffer::operations::op_insert_text_end(m.lines, pos, text);
    let m1 = BufferModel { lines: ls, cursor: crate::buffer::cursor::Cursor { position: newpos, ..m.cursor }, modified: true, ..m };
    let g = crate::buffer::model::group_of(seq![CommandView::InsertText { pos, text }], pos, newpos);
    assert(seq![CommandView::InsertText { pos, text }][0] == CommandView::InsertText { pos, text });
    lemma_undo_single(m1, g, m.lines);
    lemma_clamp_in_bounds(m.lines, pos);
}

/// Deleting a range whose start lies within the text and whose end lies on one of
/// its lines, from a buffer whose lines hold no line break and whose cursor lies
/// within the text, and then undoing gives back the lines and the cursor position; redoing after that
/// gives back the lines of the edit.
pub proof fn lemma_undo_reverts_delete_range(m: BufferModel, start: CursorPosition, end: CursorPosition)
    requires
        buffer_wf(m),
        lines_plain(m.lines),
        in_bounds(m.lines, m.cursor.position),
        start != end,
        in_bounds(m.lines, ordered(start, end).0),
        ordered(start, end).1.row < m.lines.len(),
    ensures
        ({
            let (m1, r1) = crate::buffer::model::delete_range_spec(m, start, end);
            let (m2, r2) = undo_spec(m1);
            let (m3, r3) = redo_spec(m2);
            &&& r1 is Ok
            &&& can_undo_safely(m1)
            &&& r2 is Ok
            &&& m2.lines == m.lines
            &&& m2.cursor.position == m.cursor.position
            &&& can_redo_safely(m2)
            &&& r3 is Ok
            &&& m3.lines == m1.lines
        }),
{
    let (s, e) = ordered(start, end);
    assert(pos_le(s, e));
    lemma_insert_deleted(m.lines, s, e);
    let (ls, ok) = op_delete_range(m.lines, s, e);
    let t = op_deleted_text(m.lines, s, e);
    let cmd = CommandView::DeleteText { start: s, end: e, deleted_text: t };
    let p = clamp_view(ls, s);
    let m1 = BufferModel { lines: ls, cursor: crate::buffer::cursor::Cursor { position: p, ..m.cursor }, modified: true, ..m };
    let g = crate::buffer::model::group_of(seq![cmd], m.cursor.position, p);
    assert(seq![cmd][0] == cmd);
    lemma_undo_single(m1, g, m.lines);
    lemma_clamp_in_bounds(m.lines, m.cursor.position);
}

/// Deleting an active, non-empty selection whose start lies within the text and
/// whose end lies on one of its lines, from a buffer whose lines hold no line break
/// and whose cursor lies within the text, and then undoing gives back the lines
/// and the cursor position; redoing after that
/// gives back the lines of the edit.
pub proof fn lemma_undo_reverts_delete_selection(m: BufferModel)
    requires
        buffer_wf(m),
        lines_plain(m.lines),
        in_bounds(m.lines, m.cursor.position),
        m.selection.is_active,
        range_spec(m.selection).0 != range_spec(m.selection).1,
        in_bounds(m.lines, range_spec(m.selection).0),
        range_spec(m.selection).1.row < m.lines.len(),
    ensures
        ({
            let (m1, r1) = delete_selection_spec(m);
            let (m2, r2) = undo_spec(m1);
            let (m3, r3) = redo_spec(m2);
            &&& r1 is Ok
            &&& can_undo_safely(m1)
            &&& r2 is Ok
            &&& m2.lines == m.lines
            &&& m2.cursor.position == m.cursor.position
            &&& can_redo_safely(m2)
            &&& r3 is Ok
            &&& m3.lines == m1.lines
        }),
{
    let (s, e) = range_spec(m.selection);
    crate::buffer::selection::lemma_range_ordered(m.selection);
    assert(ordered(s, e) == (s, e));
    let mc = BufferModel { selection: cleared(m.selection), ..m };
    lemma_undo_reverts_delete_range(mc, s, e);
}

/// Deleting the cursor's line, from a buffer whose lines hold no line break and
/// whose cursor lies within the text, and which is not a sole empty line, and then
/// undoing gives back the lines and the cursor position; redoing after that
/// gives back the lines of the edit.
pub proof fn lemma_undo_reverts_delete_line(m: BufferModel)
    requires
        buffer_wf(m),
        lines_plain(m.lines),
        lines_fit(m.lines),
        in_bounds(m.lines, m.cursor.position),
        m.lines.len() > 1 || m.lines[0].len() > 0,
    ensures
        ({
            let (m1, r1) = delete_line_spec(m);
            let (m2, r2) = undo_spec(m1);
            let (m3, r3) = redo_spec(m2);
            &&& r1 is Ok
            &&& can_undo_safely(m1)
            &&& r2 is Ok
            &&& m2.lines == m.lines
            &&& m2.cursor.position == m.cursor.position
            &&& can_redo_safely(m2)
            &&& r3 is Ok
            &&& m3.lines == m1.lines
        }),
{
    let (s, e) = line_range(m);
    let row = m.cursor.position.row;
    if row + 1 >= m.lines.len() {
        assert(m.lines[row as int].len() <= usize::MAX);
        if row > 0 {
            assert(m.lines[row - 1].len() <= usize::MAX);
            assert(s.row == row - 1);
            assert(e.row == row);
        } else {
            assert(s == CursorPosition { row: 0, col: 0 });
            assert(e == CursorPosition { row: 0, col: m.lines[0].len() as usize });
            assert(e.col > 0);
        }
    }
    assert(pos_le(s, e));
    assert(ordered(s, e) == (s, e));
    lemma_undo_reverts_delete_range(m, s, e);
}

/// Cutting (the active, non-empty selection, or else the cursor's line) from a
/// buffer whose lines hold no line break and whose cursor lies within the text,
/// and then undoing gives back the lines and the cursor position; redoing after that
/// gives back the lines of the edit.
pub proof fn lemma_undo_reverts_cut(m: BufferModel)
    requires
        buffer_wf(m),
        lines_plain(m.lines),
        lines_fit(m.lines),
        in_bounds(m.lines, m.cursor.position),
        m.selection.is_active ==> {
            &&& range_spec(m.selection).0 != range_spec(m.selection).1
            &&& in_bounds(m.lines, range_spec(m.selection).0)
            &&& range_spec(m.selection).1.row < m.lines.len()
        },
        !m.selection.is_active ==> m.lines.len() > 1 || m.lines[0].len() > 0,
    ensures
        ({
            let (m1, r1) = cut_spec(m);
            let (m2, r2) = undo_spec(m1);
            let (m3, r3) = redo_spec(m2);
            &&& r1 is Ok
            &&& can_undo_safely(m1)
            &&& r2 is Ok
            &&& m2.lines == m.lines
            &&& m2.cursor.position == m.cursor.position
            &&& can_redo_safely(m2)
            &&& r3 is Ok
            &&& m3.lines == m1.lines
        }),
{
    let mc = copy_spec(m);
    if m.selection.is_active {
        lemma_undo_reverts_delete_selection(mc);
    } else {
        lemma_undo_reverts_delete_line(mc);
    }
}

/// Pasting non-empty clipboard text at an in-bounds cursor with no active
/// selection and then undoing gives back the lines and the cursor position; redoing after that
/// gives back the lines of the edit.
pub proof fn lemma_undo_reverts_paste(m: BufferModel)
    requires
        buffer_wf(m),
        !m.selection.is_active,
        in_bounds(m.lines, m.cursor.position),
        m.clipboard matches Some(c) && clip_text(c).len() > 0 && m.cursor.position.row + clip_text(c).len()
            <= usize::MAX && m.cursor.position.col + clip_text(c).len() <= usize::MAX,
    ensures
        ({
            let (m1, r1) = paste_spec(m);
            let (m2, r2) = undo_spec(m1);
            let (m3, r3) = redo_spec(m2);
            &&& r1 is Ok
            &&& can_undo_safely(m1)
            &&& r2 is Ok
            &&& m2.lines == m.lines
            &&& m2.cursor.position == m.cursor.position
            &&& can_redo_safely(m2)
            &&& r3 is Ok
            &&& m3.lines == m1.lines
        }),
{
    let c = m.clipboard->Some_0;
    lemma_undo_reverts_insert_str(m, clip_text(c));
}

/// Deleting from an in-bounds cursor to where a forward word move lands (when it
/// moves at all), in a buffer whose lines hold no line break, and then undoing
/// gives back the lines and the cursor position.
pub proof fn lemma_undo_reverts_delete_word(m: BufferModel)
    requires
        buffer_wf(m),
        lines_plain(m.lines),
        lines_fit(m.lines),
        in_bounds(m.lines, m.cursor.position),
        crate::buffer::model::word_forward_cursor(m.lines, m.cursor).position != m.cursor.position,
    ensures
        ({
            let (m1, r1) = crate::buffer::model::delete_word_spec(m);
            let (m2, r2) = undo_spec(m1);
            &&& r1 is Ok
            &&& can_undo_safely(m1)
            &&& r2 is Ok
            &&& m2.lines == m.lines
            &&& m2.cursor.position == m.cursor.position
        }),
{
    let start = m.cursor.position;
    assert(m.lines[start.row as int].len() <= usize::MAX);
    crate::buffer::text_buffer::lemma_word_forward_not_before(m.lines, m.cursor);
    let wc = crate::buffer::model::word_forward_cursor(m.lines, m.cursor);
    let end = wc.position;
    let m1 = crate::buffer::model::moved(m, wc);
    let m2 = BufferModel { cursor: crate::buffer::cursor::Cursor { position: start, ..m1.cursor }, ..m1 };
    assert(ordered(start, end) == (start, end));
    lemma_undo_reverts_delete_range(m2, start, end);
}

/// Recording a group of two commands whose inverses, last command first, take the
/// edited lines back through `mid` to `ls`: undo then succeeds, gives back `ls` and
/// puts the cursor at the group's starting position.
proof fn lemma_undo_double(m1: BufferModel, g: GroupView, mid: Seq<Seq<char>>, ls: Seq<Seq<char>>)
    requires
        m1.max_levels >= 1,
        g.commands.len() == 2,
        crate::buffer::commands::inverse_fits(g.commands[1]),
        crate::buffer::commands::inverse_fits(g.commands[0]),
        !crate::buffer::model::cmd_panics(m1.lines, inverse_spec(g.commands[1])),
        !crate::buffer::model::cmd_panics(mid, inverse_spec(g.commands[0])),
        apply_cmd(m1.lines, inverse_spec(g.commands[1])) == (mid, Ok::<(), BufferError>(())),
        apply_cmd(mid, inverse_spec(g.commands[0])) == (ls, Ok::<(), BufferError>(())),
    ensures
        can_undo_safely(record(m1, g)),
        undo_spec(record(m1, g)).1 is Ok,
        undo_spec(record(m1, g)).0.lines == ls,
        undo_spec(record(m1, g)).0.cursor.position == clamp_view(ls, g.cursor_before),
{
    reveal_with_fuel(undo_safe, 3);
    reveal_with_fuel(crate::buffer::model::undo_apply, 3);
    lemma_pushed_group_is_last(m1.undo, m1.max_levels, g);
    let c1 = g.commands.drop_last();
    assert(c1.len() == 1 && c1.last() == g.commands[0]);
    assert(c1.drop_last() =~= Seq::<CommandView>::empty());
    assert(g.commands.last() == g.commands[1]);
}

/// Replacing a range (whose start lies within the text and whose end lies on one of
/// its lines) by a text, as one recorded edit that changes something, in a buffer
/// whose lines hold no line break and whose cursor lies within the text, and then
/// undoing gives back the lines and the cursor position.
pub proof fn lemma_undo_reverts_replace_range(
    m: BufferModel,
    start: CursorPosition,
    end: CursorPosition,
    repl: Seq<char>,
)
    requires
        buffer_wf(m),
        lines_plain(m.lines),
        in_bounds(m.lines, m.cursor.position),
        in_bounds(m.lines, ordered(start, end).0),
        ordered(start, end).1.row < m.lines.len(),
        ordered(start, end).0 != ordered(start, end).1 || repl.len() > 0,
        ordered(start, end).0.row + repl.len() <= usize::MAX,
        ordered(start, end).0.col + repl.len() <= usize::MAX,
    ensures
        ({
            let (m1, r1) = crate::buffer::model::replace_range_spec(m, start, end, repl);
            let (m2, r2) = undo_spec(m1);
            &&& r1 is Ok
            &&& can_undo_safely(m1)
            &&& r2 is Ok
            &&& m2.lines == m.lines
            &&& m2.cursor.position == m.cursor.position
        }),
{
    let (s, e) = ordered(start, end);
    assert(pos_le(s, e));
    lemma_insert_deleted(m.lines, s, e);
    lemma_split_nl_bounds(repl);
    lemma_clamp_in_bounds(m.lines, m.cursor.position);
    let pos = m.cursor.position;
    let l1 = if s != e { op_delete_range(m.lines, s, e).0 } else { m.lines };
    let t = op_deleted_text(m.lines, s, e);
    let del = CommandView::DeleteText { start: s, end: e, deleted_text: t };
    let ins = CommandView::InsertText { pos: s, text: repl };
    if s != e {
        let d = op_delete_range(m.lines, s, e).0;
        assert(d[s.row as int] == m.lines[s.row as int].take(s.col as int) + m.lines[range_coords(m.lines, s, e).2].skip(
            range_coords(m.lines, s, e).3,
        ));
        assert(d.len() >= 1);
    }
    if repl.len() > 0 {
        lemma_delete_inserted(l1, s, repl);
        let l2 = op_insert_text(l1, s, repl).0;
        let p0 = crate::buffer::operations::op_insert_text_end(l1, s, repl);
        let p = clamp_view(l2, p0);
        let m1 = BufferModel { lines: l2, cursor: crate::buffer::cursor::Cursor { position: p, ..m.cursor }, modified: true, ..m };
        if s != e {
            let cmds = seq![del].push(ins);
            let g = crate::buffer::model::group_of(cmds, pos, p);
            assert(cmds[0] == del && cmds[1] == ins);
            lemma_undo_double(m1, g, l1, m.lines);
        } else {
            let cmds = Seq::<CommandView>::empty().push(ins);
            let g = crate::buffer::model::group_of(cmds, pos, p);
            assert(cmds[0] == ins);
            assert(apply_cmd(m.lines, ins) == (l2, Ok::<(), BufferError>(())));
            lemma_undo_single(m1, g, m.lines);
        }
    } else {
        let p = clamp_view(l1, s);
        let m1 = BufferModel { lines: l1, cursor: crate::buffer::cursor::Cursor { position: p, ..m.cursor }, modified: true, ..m };
        let cmds = seq![del];
        let g = crate::buffer::model::group_of(cmds, pos, p);
        assert(cmds[0] == del);
        lemma_undo_single(m1, g, m.lines);
    }
}

/// The number of lines and every line's length fit in a `usize`.
pub open spec fn lines_fit(ls: Seq<Seq<char>>) -> bool {
    &&& ls.len() <= usize::MAX
    &&& forall|i: int| 0 <= i < ls.len() ==> #[trigger] ls[i].len() <= usize::MAX
}

/// Undoing the deletion of the character before an in-bounds cursor.
proof fn lemma_backspace_char(m: BufferModel, ch: char)
    requires
        buffer_wf(m),
        !m.selection.is_active,
        in_bounds(m.lines, m.cursor.position),
        m.cursor.position.col > 0,
        m.lines[m.cursor.position.row as int][m.cursor.position.col - 1] == ch,
        ch != '\n',
    ensures
        ({
            let (m1, r1) = delete_backspace_spec(m);
            let (m2, r2) = undo_spec(m1);
            let (m3, r3) = redo_spec(m2);
            &&& r1 is Ok
            &&& can_undo_safely(m1)
            &&& r2 is Ok
            &&& m2.lines == m.lines
            &&& m2.cursor.position == clamp_view(m.lines, m.cursor.position)
            &&& can_redo_safely(m2)
            &&& r3 is Ok
            &&& m3.lines == m1.lines
        }),
{
    let pos = m.cursor.position;
    let row = pos.row as int;
    let p1 = CursorPosition { row: pos.row, col: (pos.col - 1) as usize };
    let col = p1.col as int;
    let line = m.lines[row];
    let cmd = CommandView::DeleteChar { pos: p1, deleted_ch: ch };
    let ls = m.lines.update(row, line.remove(col));
    let mm = BufferModel { cursor: crate::buffer::cursor::Cursor { position: p1, ..m.cursor }, ..m };
    let m1 = BufferModel { lines: ls, modified: true, ..mm };
    let g = crate::buffer::model::group_of(seq![cmd], pos, p1);
    assert(ls.update(row, ls[row].insert(col, ch)) == m.lines) by {
        assert(line.remove(col).insert(col, ch) =~= line);
        assert(ls.update(row, ls[row].insert(col, ch)) =~= m.lines);
    }
    lemma_undo_single(m1, g, m.lines);
}

/// Undoing the join of a line with the one before it.
proof fn lemma_backspace_join(m: BufferModel)
    requires
        buffer_wf(m),
        lines_fit(m.lines),
        !m.selection.is_active,
        in_bounds(m.lines, m.cursor.position),
        m.cursor.position.col == 0,
        m.cursor.position.row > 0,
    ensures
        ({
            let (m1, r1) = delete_backspace_spec(m);
            let (m2, r2) = undo_spec(m1);
            let (m3, r3) = redo_spec(m2);
            &&& r1 is Ok
            &&& can_undo_safely(m1)
            &&& r2 is Ok
            &&& m2.lines == m.lines
            &&& m2.cursor.position == clamp_view(m.lines, m.cursor.position)
            &&& can_redo_safely(m2)
            &&& r3 is Ok
            &&& m3.lines == m1.lines
        }),
{
    let pos = m.cursor.position;
    let prev = (pos.row - 1) as usize;
    assert(m.lines[prev as int].len() <= usize::MAX);
    let cmd = CommandView::MergeLines { row: prev, col_offset: m.lines[prev as int].len() as usize };
    lemma_split_after_merge(m.lines, prev as int);
    let p = CursorPosition { row: prev, col: crate::buffer::model::line_len_v(m.lines, prev as int) as usize };
    let m1a = BufferModel { cursor: crate::buffer::cursor::Cursor { position: p, ..m.cursor }, ..m };
    let ls = crate::buffer::operations::merge_spec(m.lines, prev as int);
    let m2a = BufferModel { lines: ls, modified: true, ..m1a };
    let g = crate::buffer::model::group_of(seq![cmd], CursorPosition { row: pos.row, col: 0 }, p);
    lemma_undo_single(m2a, g, m.lines);
}

/// Deleting backwards (the character before the cursor, or the line break before
/// the cursor's line) from a buffer whose lines hold no line break, with no active
/// selection and an in-bounds cursor that is not at the start of the text, and then
/// undoing gives back the lines and the cursor position; redoing after that
/// gives back the lines of the edit.
pub proof fn lemma_undo_reverts_backspace(m: BufferModel)
    requires
        buffer_wf(m),
        lines_plain(m.lines),
        lines_fit(m.lines),
        !m.selection.is_active,
        in_bounds(m.lines, m.cursor.position),
        m.cursor.position.row > 0 || m.cursor.position.col > 0,
    ensures
        ({
            let (m1, r1) = delete_backspace_spec(m);
            let (m2, r2) = undo_spec(m1);
            let (m3, r3) = redo_spec(m2);
            &&& r1 is Ok
            &&& can_undo_safely(m1)
            &&& r2 is Ok
            &&& m2.lines == m.lines
            &&& m2.cursor.position == m.cursor.position
            &&& can_redo_safely(m2)
            &&& r3 is Ok
            &&& m3.lines == m1.lines
        }),
{
    lemma_clamp_in_bounds(m.lines, m.cursor.position);
    if m.cursor.position.col > 0 {
        let line = m.lines[m.cursor.position.row as int];
        assert(no_newline(line));
        lemma_backspace_char(m, line[m.cursor.position.col - 1]);
    } else {
        lemma_backspace_join(m);
    }
}

/// Deleting the character `ch` at an in-bounds cursor with no active selection
/// (a character other than a line break) and then undoing gives back the lines and
/// the cursor position; redoing after that gives back the lines of the deletion.
pub proof fn lemma_undo_reverts_delete_char(m: BufferModel, ch: char)
    requires
        buffer_wf(m),
        !m.selection.is_active,
        in_bounds(m.lines, m.cursor.position),
        m.cursor.position.col < m.lines[m.cursor.position.row as int].len(),
        m.lines[m.cursor.position.row as int][m.cursor.position.col as int] == ch,
        ch != '\n',
    ensures
        ({
            let (m1, r1) = delete_char_spec(m);
            let (m2, r2) = undo_spec(m1);
            let (m3, r3) = redo_spec(m2);
            &&& r1 is Ok
            &&& can_undo_safely(m1)
            &&& r2 is Ok
            &&& m2.lines == m.lines
            &&& m2.cursor.position == m.cursor.position
            &&& can_redo_safely(m2)
            &&& r3 is Ok
            &&& m3.lines == m1.lines
        }),
{
    let pos = m.cursor.position;
    let row = pos.row as int;
    let col = pos.col as int;
    let line = m.lines[row];
    reveal_with_fuel(undo_safe, 2);
    reveal_with_fuel(crate::buffer::model::undo_apply, 2);
    reveal_with_fuel(crate::buffer::model::redo_safe, 2);
    reveal_with_fuel(crate::buffer::model::redo_apply, 2);
    let (m1, r1) = delete_char_spec(m);
    let cmd = CommandView::DeleteChar { pos, deleted_ch: ch };
    lemma_pushed_group_is_last(m.undo, m.max_levels, crate::buffer::model::group_of(seq![cmd], pos, pos));
    let g = m1.undo.last();
    assert(g.commands == seq![cmd]);
    assert(seq![cmd].drop_last() =~= Seq::<CommandView>::empty());
    assert(seq![cmd].drop_first() =~= Seq::<CommandView>::empty());
    assert(line.remove(col).insert(col, ch) =~= line);
    assert(m1.lines.update(row, m1.lines[row].insert(col, ch)) =~= m.lines);
    assert(apply_cmd(m1.lines, inverse_spec(cmd)).0 == m.lines);
    assert(can_undo_safely(m1));
    let (m2, r2) = undo_spec(m1);
    assert(m2.redo.last() == g);
    assert(can_redo_safely(m2));
}

/// Deleting at the end of a line that another line follows (which joins the two)
/// with no active selection and then undoing gives back the lines and the cursor
/// position; redoing after that gives back the joined lines.
pub proof fn lemma_undo_reverts_line_join(m: BufferModel)
    requires
        buffer_wf(m),
        !m.selection.is_active,
        m.cursor.position.row + 1 < m.lines.len(),
        m.cursor.position.col == m.lines[m.cursor.position.row as int].len(),
    ensures
        ({
            let (m1, r1) = delete_char_spec(m);
            let (m2, r2) = undo_spec(m1);
            let (m3, r3) = redo_spec(m2);
            &&& r1 is Ok
            &&& can_undo_safely(m1)
            &&& r2 is Ok
            &&& m2.lines == m.lines
            &&& m2.cursor.position == m.cursor.position
            &&& can_redo_safely(m2)
            &&& r3 is Ok
            &&& m3.lines == m1.lines
        }),
{
    let pos = m.cursor.position;
    let row = pos.row as int;
    reveal_with_fuel(undo_safe, 2);
    reveal_with_fuel(crate::buffer::model::undo_apply, 2);
    reveal_with_fuel(crate::buffer::model::redo_safe, 2);
    reveal_with_fuel(crate::buffer::model::redo_apply, 2);
    let (m1, r1) = delete_char_spec(m);
    let cmd = CommandView::MergeLines { row: pos.row, col_offset: m.lines[row].len() as usize };
    lemma_pushed_group_is_last(m.undo, m.max_levels, crate::buffer::model::group_of(seq![cmd], pos, pos));
    let g = m1.undo.last();
    assert(g.commands == seq![cmd]);
    assert(seq![cmd].drop_last() =~= Seq::<CommandView>::empty());
    assert(seq![cmd].drop_first() =~= Seq::<CommandView>::empty());
    lemma_split_after_merge(m.lines, row);
    assert(apply_cmd(m1.lines, inverse_spec(cmd)).0 == m.lines);
    assert(can_undo_safely(m1));
    let (m2, r2) = undo_spec(m1);
    assert(m2.redo.last() == g);
    assert(can_redo_safely(m2));
}

} // verus!
//! Text editing: inserting and deleting characters, words and lines, undo
//! and redo of recorded edits, multi-cursor edits, and selections.
use vstd::prelude::*;
use crate::editor_state::{FileViewerState, Position, pos_le, restored_view, restore_view, same_outside_editing};
use crate::undo::{Edit, CursorSnapshot, UndoHistory, undoable};
use crate::text::{
    chars_of, string_push,
    lines_fit, lines_fit_check,
    byte_len, byte_length, concat_str, copy_string, insert_char_at, is_word_char, lemma_chars_le_bytes, lemma_bytes_le_four_per_char,
    remove_char_at, substring, word_char,
};

verus! {

// ---------------------------------------------------------------------------
// The document as a mathematical value
// ---------------------------------------------------------------------------

/// The document: one character sequence per line.
pub open spec fn doc(lines: Seq<String>) -> Seq<Seq<char>> {
    lines.map_values(|s: String| s@)
}

/// Smaller of two integers.
pub open spec fn min_int(a: int, b: int) -> int {
    if a <= b { a } else { b }
}

/// Document after applying `e` forwards (as redo does); `None` when the edit
/// does not fit the document, which is then left unchanged.
pub open spec fn redo_doc(e: Edit, d: Seq<Seq<char>>) -> Option<Seq<Seq<char>>> {
    match e {
        Edit::InsertChar { line, col, ch } => if line < d.len() && col <= d[line as int].len() {
            Some(d.update(line as int, d[line as int].insert(col as int, ch)))
        } else {
            None
        },
        Edit::DeleteChar { line, col, .. } => if line < d.len() && col < d[line as int].len() {
            Some(d.update(line as int, d[line as int].remove(col as int)))
        } else {
            None
        },
        Edit::SplitLine { line, before, after, .. } => if line < d.len() {
            Some(d.update(line as int, before@).insert(line + 1, after@))
        } else {
            None
        },
        Edit::MergeLine { line, .. } => if line + 1 < d.len() {
            Some(d.update(line as int, d[line as int] + d[line + 1]).remove(line + 1))
        } else {
            None
        },
        Edit::InsertLine { line, content } => if line <= d.len() {
            Some(d.insert(line as int, content@))
        } else {
            None
        },
        Edit::DeleteLine { line, .. } => if line < d.len() {
            Some(d.remove(line as int))
        } else {
            None
        },
        Edit::DragBlock { after, .. } => Some(doc(after@)),
        Edit::ReplaceLine { line, new_content, .. } => if line < d.len() {
            Some(d.update(line as int, new_content@))
        } else {
            None
        },
        Edit::DeleteWord { line, col, text, .. } => if line < d.len() && col + text@.len() <= d[line as int].len() {
            Some(d.update(line as int, d[line as int].take(col as int) + d[line as int].skip(col + text@.len())))
        } else {
            None
        },
        Edit::CompositeEdit { .. } => None,
    }
}

/// Document after applying `e` backwards (as undo does); `None` when the edit
/// does not fit the document, which is then left unchanged.
pub open spec fn undo_doc(e: Edit, d: Seq<Seq<char>>) -> Option<Seq<Seq<char>>> {
    match e {
        Edit::InsertChar { line, col, .. } => if line < d.len() && col < d[line as int].len() {
            Some(d.update(line as int, d[line as int].remove(col as int)))
        } else {
            None
        },
        Edit::DeleteChar { line, col, ch } => if line < d.len() && col <= d[line as int].len() {
            Some(d.update(line as int, d[line as int].insert(col as int, ch)))
        } else {
            None
        },
        Edit::SplitLine { line, before, after, .. } => if line < d.len() {
            let d1 = d.update(line as int, before@ + after@);
            if line + 1 < d1.len() && d1[line + 1] == after@ {
                Some(d1.remove(line + 1))
            } else {
                Some(d1)
            }
        } else {
            None
        },
        Edit::MergeLine { line, first, second } => if line < d.len() {
            Some(d.update(line as int, first@).insert(line + 1, second@))
        } else {
            None
        },
        Edit::InsertLine { line, .. } => if line < d.len() {
            Some(d.remove(line as int))
        } else {
            None
        },
        Edit::DeleteLine { line, content } => if line <= d.len() {
            Some(d.insert(line as int, content@))
        } else {
            None
        },
        Edit::DragBlock { before, .. } => Some(doc(before@)),
        Edit::ReplaceLine { line, old_content, .. } => if line < d.len() {
            Some(d.update(line as int, old_content@))
        } else {
            None
        },
        Edit::DeleteWord { line, col, text, .. } => if line < d.len() && col <= byte_len(d[line as int]) {
            let l = d[line as int];
            let m = min_int(col as int, l.len() as int);
            Some(d.update(line as int, l.take(m) + text@ + l.skip(m)))
        } else {
            None
        },
        Edit::CompositeEdit { .. } => None,
    }
}

/// The edit describes a change that was made to document `d`: the text it
/// records as removed or replaced is what `d` holds there.
pub open spec fn recorded_from(e: Edit, d: Seq<Seq<char>>) -> bool {
    match e {
        Edit::DeleteChar { line, col, ch } => line < d.len() && col < d[line as int].len() && d[line as int][col as int] == ch,
        Edit::SplitLine { line, before, after, .. } => line < d.len() && d[line as int] == before@ + after@,
        Edit::MergeLine { line, first, second } => line + 1 < d.len() && d[line as int] == first@
            && d[line + 1] == second@,
        Edit::DeleteLine { line, content } => line < d.len() && d[line as int] == content@,
        Edit::DragBlock { before, .. } => d == doc(before@),
        Edit::ReplaceLine { line, old_content, .. } => line < d.len() && d[line as int] == old_content@,
        Edit::DeleteWord { line, col, text, .. } => line < d.len() && col + text@.len() <= d[line as int].len()
            && d[line as int].subrange(col as int, col + text@.len()) == text@
            && 4 * d[line as int].len() <= usize::MAX,
        _ => true,
    }
}

/// Undo after redo: applying an edit that was recorded from `d` forwards and
/// then backwards gives `d` back.
pub proof fn lemma_undo_after_redo(e: Edit, d: Seq<Seq<char>>)
    requires
        recorded_from(e, d),
        redo_doc(e, d) is Some,
    ensures
        undo_doc(e, redo_doc(e, d)->0) == Some(d),
{
    let d2 = redo_doc(e, d)->0;
    match e {
        Edit::InsertChar { line, col, ch } => {
            assert(d2[line as int] == d[line as int].insert(col as int, ch));
            assert(d2[line as int].len() == d[line as int].len() + 1);
            assert(d2[line as int].remove(col as int) =~= d[line as int]);
            assert(d2.update(line as int, d2[line as int].remove(col as int)) =~= d);
            assert(line < d2.len() && col < d2[line as int].len());
            assert(undo_doc(e, d2) == Some(d2.update(line as int, d2[line as int].remove(col as int))));
            assert(undo_doc(e, d2) == Some(d));
        },
        Edit::DeleteChar { line, col, ch } => {
            assert(d2[line as int].insert(col as int, ch) =~= d[line as int]);
            assert(d2.update(line as int, d2[line as int].insert(col as int, ch)) =~= d);
            assert(undo_doc(e, d2) == Some(d));
        },
        Edit::SplitLine { line, before, after, .. } => {
            let d1 = d2.update(line as int, before@ + after@);
            assert(d1[line + 1] == after@);
            assert(d1.remove(line + 1) =~= d);
            assert(undo_doc(e, d2) == Some(d));
        },
        Edit::MergeLine { line, first, second } => {
            assert(d2.update(line as int, first@).insert(line + 1, second@) =~= d);
            assert(undo_doc(e, d2) == Some(d));
        },
        Edit::InsertLine { line, content } => {
            assert(d2.remove(line as int) =~= d);
            assert(undo_doc(e, d2) == Some(d));
        },
        Edit::DeleteLine { line, content } => {
            assert(d2.insert(line as int, content@) =~= d);
            assert(undo_doc(e, d2) == Some(d));
        },
        Edit::DragBlock { before, after, .. } => {},
        Edit::ReplaceLine { line, old_content, new_content } => {
            assert(d2.update(line as int, old_content@) =~= d);
            assert(undo_doc(e, d2) == Some(d));
        },
        Edit::DeleteWord { line, col, text, forward } => {
            let l = d[line as int];
            let l2 = d2[line as int];
            assert(l2 =~= l.take(col as int) + l.skip(col + text@.len()));
            lemma_chars_le_bytes(l2);
            lemma_bytes_le_four_per_char(l2);
            let m = min_int(col as int, l2.len() as int);
            assert(m == col);
            assert(l2.take(m) =~= l.take(col as int));
            assert(l2.skip(m) =~= l.skip(col + text@.len()));
            assert(l.take(col as int) + text@ + l.skip(col + text@.len()) =~= l);
            assert(d2.update(line as int, l2.take(m) + text@ + l2.skip(m)) =~= d);
            assert(undo_doc(e, d2) == Some(d));
        },
        Edit::CompositeEdit { .. } => {},
    }
}

/// The edit can be redone on document `d` after being undone there: the
/// text it inserts is what `d` holds at that place.
pub open spec fn applied_to(e: Edit, d: Seq<Seq<char>>) -> bool {
    match e {
        Edit::InsertChar { line, col, ch } => line < d.len() && col < d[line as int].len() && d[line as int][col as int] == ch,
        Edit::SplitLine { line, before, after, .. } => line + 1 < d.len() && d[line as int] == before@
            && d[line + 1] == after@,
        Edit::MergeLine { line, first, second } => line < d.len() && d[line as int] == first@ + second@,
        Edit::InsertLine { line, content } => line < d.len() && d[line as int] == content@,
        Edit::DragBlock { after, .. } => d == doc(after@),
        Edit::ReplaceLine { line, new_content, .. } => line < d.len() && d[line as int] == new_content@,
        Edit::DeleteWord { line, col, .. } => line < d.len() && col <= d[line as int].len(),
        _ => true,
    }
}

/// Redo after undo: applying an edit that is present in `d` backwards and
/// then forwards gives `d` back.
pub proof fn lemma_redo_after_undo(e: Edit, d: Seq<Seq<char>>)
    requires
        applied_to(e, d),
        undo_doc(e, d) is Some,
    ensures
        redo_doc(e, undo_doc(e, d)->0) == Some(d),
{
    let d2 = undo_doc(e, d)->0;
    match e {
        Edit::InsertChar { line, col, ch } => {
            assert(d2[line as int].insert(col as int, ch) =~= d[line as int]);
            assert(d2.update(line as int, d2[line as int].insert(col as int, ch)) =~= d);
        },
        Edit::DeleteChar { line, col, ch } => {
            assert(d2[line as int].remove(col as int) =~= d[line as int]);
            assert(d2.update(line as int, d2[line as int].remove(col as int)) =~= d);
        },
        Edit::SplitLine { line, before, after, .. } => {
            let d1 = d.update(line as int, before@ + after@);
            assert(d1[line + 1] == after@);
            assert(d2 == d1.remove(line + 1));
            assert(d2.update(line as int, before@).insert(line + 1, after@) =~= d);
        },
        Edit::MergeLine { line, first, second } => {
            assert(d2[line as int] + d2[line + 1] =~= d[line as int]);
            assert(d2.update(line as int, d2[line as int] + d2[line + 1]).remove(line + 1) =~= d);
        },
        Edit::InsertLine { line, content } => {
            assert(d2.insert(line as int, content@) =~= d);
        },
        Edit::DeleteLine { line, content } => {
            assert(d2.remove(line as int) =~= d);
        },
        Edit::DragBlock { before, after, .. } => {},
        Edit::ReplaceLine { line, old_content, new_content } => {
            assert(d2.update(line as int, new_content@) =~= d);
        },
        Edit::DeleteWord { line, col, text, forward } => {
            let l = d[line as int];
            lemma_chars_le_bytes(l);
            let l2 = d2[line as int];
            assert(l2 =~= l.take(col as int) + text@ + l.skip(col as int));
            assert(l2.take(col as int) + l2.skip(col + text@.len()) =~= l);
            assert(d2.update(line as int, l2.take(col as int) + l2.skip(col + text@.len())) =~= d);
        },
        Edit::CompositeEdit { .. } => {},
    }
}

// ---------------------------------------------------------------------------
// Applying one recorded edit to the lines
// ---------------------------------------------------------------------------

/// `a - b`, or 0 when `b > a`.
pub open spec fn sat_sub(a: int, b: int) -> int {
    if a >= b { a - b } else { 0 }
}

/// `a + b`, or `usize::MAX` when the sum does not fit.
pub open spec fn sat_add(a: int, b: int) -> int {
    if a + b <= usize::MAX { a + b } else { usize::MAX as int }
}

/// Cursor `(screen line, column)` after undoing `e` on `d` with the view
/// starting at line `top`; `cur` when the undo does not apply or moves no cursor.
pub open spec fn undo_cursor(e: Edit, d: Seq<Seq<char>>, top: int, cur: (int, int)) -> (int, int) {
    if undo_doc(e, d) is None {
        cur
    } else {
        match e {
            Edit::InsertChar { line, col, .. } => (sat_sub(line as int, top), col as int),
            Edit::DeleteChar { line, col, .. } => (sat_sub(line as int, top), col + 1),
            Edit::SplitLine { line, col, .. } => (sat_sub(line as int, top), col as int),
            Edit::MergeLine { line, .. } => (sat_sub(line + 1, top), 0),
            Edit::InsertLine { line, .. } => (sat_sub(line as int, top), 0),
            Edit::DeleteLine { line, .. } => (sat_sub(line as int, top), 0),
            Edit::ReplaceLine { line, .. } => (sat_sub(line as int, top), 0),
            Edit::DeleteWord { line, col, text, forward } => (
                sat_sub(line as int, top),
                if forward { col as int } else { sat_add(col as int, text@.len() as int) },
            ),
            _ => cur,
        }
    }
}

/// Cursor `(screen line, column)` after redoing `e` on `d` with the view
/// starting at line `top`; `cur` when the redo does not apply or moves no cursor.
pub open spec fn redo_cursor(e: Edit, d: Seq<Seq<char>>, top: int, cur: (int, int)) -> (int, int) {
    if redo_doc(e, d) is None {
        cur
    } else {
        match e {
            Edit::InsertChar { line, col, .. } => (sat_sub(line as int, top), col + 1),
            Edit::DeleteChar { line, col, .. } => (sat_sub(line as int, top), col as int),
            Edit::SplitLine { line, .. } => (sat_sub(line + 1, top), 0),
            Edit::MergeLine { line, .. } => (sat_sub(line as int, top), byte_len(d[line as int]) as int),
            Edit::InsertLine { line, .. } => (sat_sub(line as int, top), 0),
            Edit::DeleteLine { line, .. } => (sat_sub(line as int, top), 0),
            Edit::ReplaceLine { line, .. } => (sat_sub(line as int, top), 0),
            Edit::DeleteWord { line, col, .. } => (sat_sub(line as int, top), col as int),
            _ => cur,
        }
    }
}

/// `a - b` clamped at zero.
fn saturating_sub(a: usize, b: usize) -> (r: usize)
    ensures
        r == sat_sub(a as int, b as int),
{
    if a >= b { a - b } else { 0 }
}

/// A copy of the lines.
pub(crate) fn copy_lines(v: &Vec<String>) -> (r: Vec<String>)
    ensures
        r@ == v@,
{
    let r = v.clone();
    assert(r@ =~= v@);
    r
}

/// Undo one (non-composite) edit on `lines`.  Returns whether it applied and
/// the cursor it leaves; when it does not apply the lines stay as they were.
fn apply_single_undo_edit(lines: &mut Vec<String>, edit: &Edit, top: usize, cur: (usize, usize)) -> (r: (bool, (usize, usize)))
    requires
        top + cur.0 <= usize::MAX,
    ensures
        top + r.1.0 <= usize::MAX,
        r.0 == undo_doc(*edit, doc(old(lines)@)) is Some,
        r.0 ==> doc(final(lines)@) == undo_doc(*edit, doc(old(lines)@))->0,
        !r.0 ==> final(lines)@ == old(lines)@,
        (r.1.0 as int, r.1.1 as int) == undo_cursor(*edit, doc(old(lines)@), top as int, (cur.0 as int, cur.1 as int)),
{
    let ghost d = doc(lines@);
    match edit {
        Edit::InsertChar { line, col, .. } => {
            let line = *line;
            let col = *col;
            if line < lines.len() && col < lines[line].unicode_len() {
                let new_line = remove_char_at(&lines[line], col);
                lines.set(line, new_line);
                assert(doc(lines@) =~= undo_doc(*edit, d)->0);
                (true, (saturating_sub(line, top), col))
            } else {
                (false, cur)
            }
        },
        Edit::DeleteChar { line, col, ch } => {
            let line = *line;
            let col = *col;
            if line < lines.len() && col <= lines[line].unicode_len() {
                let new_line = insert_char_at(&lines[line], col, *ch);
                let n = new_line.unicode_len();
                lines.set(line, new_line);
                assert(doc(lines@) =~= undo_doc(*edit, d)->0);
                (true, (saturating_sub(line, top), col + 1))
            } else {
                (false, cur)
            }
        },
        Edit::SplitLine { line, col, before, after } => {
            let line = *line;
            if line < lines.len() {
                let joined = concat_str(before, after);
                lines.set(line, joined);
                let ghost d1 = doc(lines@);
                assert(d1 =~= d.update(line as int, before@ + after@));
                if line + 1 < lines.len() && lines[line + 1] == *after {
                    lines.remove(line + 1);
                    assert(doc(lines@) =~= d1.remove(line + 1));
                }
                (true, (saturating_sub(line, top), *col))
            } else {
                (false, cur)
            }
        },
        Edit::MergeLine { line, first, second } => {
            let line = *line;
            if line < lines.len() {
                lines.set(line, copy_string(first));
                lines.insert(line + 1, copy_string(second));
                assert(doc(lines@) =~= undo_doc(*edit, d)->0);
                (true, (saturating_sub(line + 1, top), 0))
            } else {
                (false, cur)
            }
        },
        Edit::InsertLine { line, .. } => {
            let line = *line;
            if line < lines.len() {
                lines.remove(line);
                assert(doc(lines@) =~= undo_doc(*edit, d)->0);
                (true, (saturating_sub(line, top), 0))
            } else {
                (false, cur)
            }
        },
        Edit::DeleteLine { line, content } => {
            let line = *line;
            if line <= lines.len() {
                lines.insert(line, copy_string(content));
                assert(doc(lines@) =~= undo_doc(*edit, d)->0);
                (true, (saturating_sub(line, top), 0))
            } else {
                (false, cur)
            }
        },
        Edit::DragBlock { before, .. } => {
            *lines = copy_lines(before);
            (true, cur)
        },
        Edit::ReplaceLine { line, old_content, .. } => {
            let line = *line;
            if line < lines.len() {
                lines.set(line, copy_string(old_content));
                assert(doc(lines@) =~= undo_doc(*edit, d)->0);
                (true, (saturating_sub(line, top), 0))
            } else {
                (false, cur)
            }
        },
        Edit::DeleteWord { line, col, text, forward } => {
            let line = *line;
            let col = *col;
            if line < lines.len() && col <= byte_length(&lines[line]) {
                let n = lines[line].unicode_len();
                let m = if col < n { col } else { n };
                let head = substring(&lines[line], 0, m);
                let tail = substring(&lines[line], m, n);
                let with_text = concat_str(&head, text);
                let new_line = concat_str(&with_text, &tail);
                lines.set(line, new_line);
                assert(doc(lines@) =~= undo_doc(*edit, d)->0);
                let tlen = text.unicode_len();
                let c = if *forward { col } else { col.saturating_add(tlen) };
                (true, (saturating_sub(line, top), c))
            } else {
                (false, cur)
            }
        },
        Edit::CompositeEdit { .. } => (false, cur),
    }
}

/// Redo one (non-composite) edit on `lines`.  Returns whether it applied and
/// the cursor it leaves; when it does not apply the lines stay as they were.
fn apply_single_redo_edit(lines: &mut Vec<String>, edit: &Edit, top: usize, cur: (usize, usize)) -> (r: (bool, (usize, usize)))
    requires
        top + cur.0 <= usize::MAX,
    ensures
        top + r.1.0 <= usize::MAX,
        r.0 == redo_doc(*edit, doc(old(lines)@)) is Some,
        r.0 ==> doc(final(lines)@) == redo_doc(*edit, doc(old(lines)@))->0,
        !r.0 ==> final(lines)@ == old(lines)@,
        (r.1.0 as int, r.1.1 as int) == redo_cursor(*edit, doc(old(lines)@), top as int, (cur.0 as int, cur.1 as int)),
{
    let ghost d = doc(lines@);
    match edit {
        Edit::InsertChar { line, col, ch } => {
            let line = *line;
            let col = *col;
            if line < lines.len() && col <= lines[line].unicode_len() {
                let new_line = insert_char_at(&lines[line], col, *ch);
                let n = new_line.unicode_len();
                lines.set(line, new_line);
                assert(doc(lines@) =~= redo_doc(*edit, d)->0);
                (true, (saturating_sub(line, top), col + 1))
            } else {
                (false, cur)
            }
        },
        Edit::DeleteChar { line, col, .. } => {
            let line = *line;
            let col = *col;
            if line < lines.len() && col < lines[line].unicode_len() {
                let new_line = remove_char_at(&lines[line], col);
                lines.set(line, new_line);
                assert(doc(lines@) =~= redo_doc(*edit, d)->0);
                (true, (saturating_sub(line, top), col))
            } else {
                (false, cur)
            }
        },
        Edit::SplitLine { line, before, after, .. } => {
            let line = *line;
            if line < lines.len() {
                lines.set(line, copy_string(before));
                lines.insert(line + 1, copy_string(after));
                assert(doc(lines@) =~= redo_doc(*edit, d)->0);
                (true, (saturating_sub(line + 1, top), 0))
            } else {
                (false, cur)
            }
        },
        Edit::MergeLine { line, .. } => {
            let line = *line;
            if line < lines.len() && line + 1 < lines.len() {
                let next = lines.remove(line + 1);
                let prev_len = byte_length(&lines[line]);
                let merged = concat_str(&lines[line], &next);
                lines.set(line, merged);
                assert(doc(lines@) =~= redo_doc(*edit, d)->0);
                (true, (saturating_sub(line, top), prev_len))
            } else {
                (false, cur)
            }
        },
        Edit::InsertLine { line, content } => {
            let line = *line;
            if line <= lines.len() {
                lines.insert(line, copy_string(content));
                assert(doc(lines@) =~= redo_doc(*edit, d)->0);
                (true, (saturating_sub(line, top), 0))
            } else {
                (false, cur)
            }
        },
        Edit::DeleteLine { line, .. } => {
            let line = *line;
            if line < lines.len() {
                lines.remove(line);
                assert(doc(lines@) =~= redo_doc(*edit, d)->0);
                (true, (saturating_sub(line, top), 0))
            } else {
                (false, cur)
            }
        },
        Edit::DragBlock { after, .. } => {
            *lines = copy_lines(after);
            (true, cur)
        },
        Edit::ReplaceLine { line, new_content, .. } => {
            let line = *line;
            if line < lines.len() {
                lines.set(line, copy_string(new_content));
                assert(doc(lines@) =~= redo_doc(*edit, d)->0);
                (true, (saturating_sub(line, top), 0))
            } else {
                (false, cur)
            }
        },
        Edit::DeleteWord { line, col, text, .. } => {
            let line = *line;
            let col = *col;
            if line < lines.len() {
                let tlen = text.unicode_len();
                let n = lines[line].unicode_len();
                if tlen <= n && col <= n - tlen {
                    let head = substring(&lines[line], 0, col);
                    let tail = substring(&lines[line], col + tlen, n);
                    let new_line = concat_str(&head, &tail);
                    lines.set(line, new_line);
                    assert(doc(lines@) =~= redo_doc(*edit, d)->0);
                    (true, (saturating_sub(line, top), col))
                } else {
                    (false, cur)
                }
            } else {
                (false, cur)
            }
        },
        Edit::CompositeEdit { .. } => (false, cur),
    }
}

// ---------------------------------------------------------------------------
// Undoing and redoing whole recorded edits
// ---------------------------------------------------------------------------

/// Document after undoing `e` on `d`, or `d` when it does not apply.
pub open spec fn undo_or_keep(e: Edit, d: Seq<Seq<char>>) -> Seq<Seq<char>> {
    match undo_doc(e, d) {
        Some(d2) => d2,
        None => d,
    }
}

/// Document after redoing `e` on `d`, or `d` when it does not apply.
pub open spec fn redo_or_keep(e: Edit, d: Seq<Seq<char>>) -> Seq<Seq<char>> {
    match redo_doc(e, d) {
        Some(d2) => d2,
        None => d,
    }
}

/// Undo every edit of `es`, last first; edits that do not apply are skipped.
pub open spec fn undo_all(es: Seq<Edit>, d: Seq<Seq<char>>) -> Seq<Seq<char>>
    decreases es.len(),
{
    if es.len() == 0 {
        d
    } else {
        undo_all(es.drop_last(), undo_or_keep(es.last(), d))
    }
}

/// Whether every edit of `es` applies when they are undone last first.
pub open spec fn undo_all_ok(es: Seq<Edit>, d: Seq<Seq<char>>) -> bool
    decreases es.len(),
{
    es.len() == 0 || (undo_doc(es.last(), d) is Some && undo_all_ok(es.drop_last(), undo_or_keep(es.last(), d)))
}

/// Cursor after undoing every edit of `es`, last first.
pub open spec fn undo_all_cursor(es: Seq<Edit>, d: Seq<Seq<char>>, top: int, cur: (int, int)) -> (int, int)
    decreases es.len(),
{
    if es.len() == 0 {
        cur
    } else {
        undo_all_cursor(es.drop_last(), undo_or_keep(es.last(), d), top, undo_cursor(es.last(), d, top, cur))
    }
}

/// Redo every edit of `es`, first first; edits that do not apply are skipped.
pub open spec fn redo_all(es: Seq<Edit>, d: Seq<Seq<char>>) -> Seq<Seq<char>>
    decreases es.len(),
{
    if es.len() == 0 {
        d
    } else {
        redo_all(es.drop_first(), redo_or_keep(es[0], d))
    }
}

/// Whether every edit of `es` applies when they are redone first first.
pub open spec fn redo_all_ok(es: Seq<Edit>, d: Seq<Seq<char>>) -> bool
    decreases es.len(),
{
    es.len() == 0 || (redo_doc(es[0], d) is Some && redo_all_ok(es.drop_first(), redo_or_keep(es[0], d)))
}

/// Cursor after redoing every edit of `es`, first first.
pub open spec fn redo_all_cursor(es: Seq<Edit>, d: Seq<Seq<char>>, top: int, cur: (int, int)) -> (int, int)
    decreases es.len(),
{
    if es.len() == 0 {
        cur
    } else {
        redo_all_cursor(es.drop_first(), redo_or_keep(es[0], d), top, redo_cursor(es[0], d, top, cur))
    }
}

/// Document after undoing a recorded edit (a composite one edit by edit).
pub open spec fn undo_edit_doc(e: Edit, d: Seq<Seq<char>>) -> Seq<Seq<char>> {
    match e {
        Edit::CompositeEdit { edits, .. } => undo_all(edits@, d),
        _ => undo_or_keep(e, d),
    }
}

/// Whether undoing a recorded edit applies in full.
pub open spec fn undo_edit_ok(e: Edit, d: Seq<Seq<char>>) -> bool {
    match e {
        Edit::CompositeEdit { edits, .. } => undo_all_ok(edits@, d),
        _ => undo_doc(e, d) is Some,
    }
}

/// Document after redoing a recorded edit (a composite one edit by edit).
pub open spec fn redo_edit_doc(e: Edit, d: Seq<Seq<char>>) -> Seq<Seq<char>> {
    match e {
        Edit::CompositeEdit { edits, .. } => redo_all(edits@, d),
        _ => redo_or_keep(e, d),
    }
}

/// Whether redoing a recorded edit applies in full.
pub open spec fn redo_edit_ok(e: Edit, d: Seq<Seq<char>>) -> bool {
    match e {
        Edit::CompositeEdit { edits, .. } => redo_all_ok(edits@, d),
        _ => redo_doc(e, d) is Some,
    }
}

/// The cursor snapshot stored with a composite edit, if any.
pub open spec fn edit_snapshot(e: Edit) -> Option<(usize, usize, Seq<Position>)> {
    match e {
        Edit::CompositeEdit { undo_cursor: Some(snap), .. } => Some((snap.0, snap.1, snap.2@)),
        _ => None,
    }
}

/// Cursor after undoing a recorded edit: a composite's snapshot wins.
pub open spec fn undo_edit_cursor(e: Edit, d: Seq<Seq<char>>, top: int, cur: (int, int)) -> (int, int) {
    match edit_snapshot(e) {
        Some(snap) => (sat_sub(snap.0 as int, top), snap.1 as int),
        None => match e {
            Edit::CompositeEdit { edits, .. } => undo_all_cursor(edits@, d, top, cur),
            _ => undo_cursor(e, d, top, cur),
        },
    }
}

/// Cursor after redoing a recorded edit: a composite's snapshot wins.
pub open spec fn redo_edit_cursor(e: Edit, d: Seq<Seq<char>>, top: int, cur: (int, int)) -> (int, int) {
    match edit_snapshot(e) {
        Some(snap) => (sat_sub(snap.0 as int, top), snap.1 as int),
        None => match e {
            Edit::CompositeEdit { edits, .. } => redo_all_cursor(edits@, d, top, cur),
            _ => redo_cursor(e, d, top, cur),
        },
    }
}

/// A copy of a list of positions.
pub(crate) fn copy_positions(v: &Vec<Position>) -> (r: Vec<Position>)
    ensures
        r@ == v@,
{
    let mut r: Vec<Position> = Vec::new();
    let mut i: usize = 0;
    while i < v.len()
        invariant
            i <= v@.len(),
            r@ == v@.take(i as int),
        decreases v@.len() - i,
    {
        r.push(v[i]);
        i = i + 1;
        assert(r@ =~= v@.take(i as int));
    }
    assert(v@.take(v@.len() as int) =~= v@);
    r
}

/// Undo the edits of a composite, last first, continuing past any that do
/// not apply.
fn undo_edits(lines: &mut Vec<String>, edits: &Vec<Edit>, top: usize, cur: (usize, usize)) -> (r: (bool, (usize, usize)))
    requires
        top + cur.0 <= usize::MAX,
    ensures
        doc(final(lines)@) == undo_all(edits@, doc(old(lines)@)),
        r.0 == undo_all_ok(edits@, doc(old(lines)@)),
        (r.1.0 as int, r.1.1 as int) == undo_all_cursor(edits@, doc(old(lines)@), top as int, (cur.0 as int, cur.1 as int)),
        top + r.1.0 <= usize::MAX,
{
    let ghost d0 = doc(lines@);
    let ghost es = edits@;
    let mut i = edits.len();
    let mut ok = true;
    let mut c = cur;
    assert(es.take(i as int) =~= es);
    while i > 0
        invariant
            i <= es.len(),
            es == edits@,
            top + c.0 <= usize::MAX,
            undo_all(es.take(i as int), doc(lines@)) == undo_all(es, d0),
            (ok && undo_all_ok(es.take(i as int), doc(lines@))) == undo_all_ok(es, d0),
            undo_all_cursor(es.take(i as int), doc(lines@), top as int, (c.0 as int, c.1 as int))
                == undo_all_cursor(es, d0, top as int, (cur.0 as int, cur.1 as int)),
        decreases i,
    {
        let ghost before = doc(lines@);
        let ghost pre = es.take(i as int);
        assert(pre.drop_last() =~= es.take(i - 1));
        assert(pre.last() == es[i - 1]);
        i = i - 1;
        let (applied, c2) = apply_single_undo_edit(lines, &edits[i], top, c);
        assert(doc(lines@) == undo_or_keep(es[i as int], before));
        if !applied {
            ok = false;
        }
        c = c2;
    }
    assert(es.take(0) =~= Seq::<Edit>::empty());
    assert(es.take(es.len() as int) =~= es);
    (ok, c)
}

/// Redo the edits of a composite, first first, continuing past any that do
/// not apply.
fn redo_edits(lines: &mut Vec<String>, edits: &Vec<Edit>, top: usize, cur: (usize, usize)) -> (r: (bool, (usize, usize)))
    requires
        top + cur.0 <= usize::MAX,
    ensures
        doc(final(lines)@) == redo_all(edits@, doc(old(lines)@)),
        r.0 == redo_all_ok(edits@, doc(old(lines)@)),
        (r.1.0 as int, r.1.1 as int) == redo_all_cursor(edits@, doc(old(lines)@), top as int, (cur.0 as int, cur.1 as int)),
        top + r.1.0 <= usize::MAX,
{
    let ghost d0 = doc(lines@);
    let ghost es = edits@;
    let mut i: usize = 0;
    let mut ok = true;
    let mut c = cur;
    assert(es.skip(0) =~= es);
    while i < edits.len()
        invariant
            i <= es.len(),
            es == edits@,
            top + c.0 <= usize::MAX,
            redo_all(es.skip(i as int), doc(lines@)) == redo_all(es, d0),
            (ok && redo_all_ok(es.skip(i as int), doc(lines@))) == redo_all_ok(es, d0),
            redo_all_cursor(es.skip(i as int), doc(lines@), top as int, (c.0 as int, c.1 as int))
                == redo_all_cursor(es, d0, top as int, (cur.0 as int, cur.1 as int)),
        decreases es.len() - i,
    {
        let ghost before = doc(lines@);
        let ghost suf = es.skip(i as int);
        assert(suf.drop_first() =~= es.skip(i + 1));
        assert(suf[0] == es[i as int]);
        let (applied, c2) = apply_single_redo_edit(lines, &edits[i], top, c);
        assert(doc(lines@) == redo_or_keep(es[i as int], before));
        if !applied {
            ok = false;
        }
        c = c2;
        i = i + 1;
    }
    assert(es.skip(es.len() as int) =~= Seq::<Edit>::empty());
    assert(es.skip(0) =~= es);
    (ok, c)
}

/// Undo a whole recorded edit on `lines`; returns whether it applied in
/// full, the cursor it leaves and the extra cursors of its snapshot.
pub(crate) fn undo_recorded(lines: &mut Vec<String>, edit: &Edit, top: usize, cur: (usize, usize)) -> (r: (bool, (usize, usize), Option<Vec<Position>>))
    requires
        top + cur.0 <= usize::MAX,
    ensures
        doc(final(lines)@) == undo_edit_doc(*edit, doc(old(lines)@)),
        r.0 == undo_edit_ok(*edit, doc(old(lines)@)),
        (r.1.0 as int, r.1.1 as int) == undo_edit_cursor(*edit, doc(old(lines)@), top as int, (cur.0 as int, cur.1 as int)),
        top + r.1.0 <= usize::MAX,
        match edit_snapshot(*edit) {
            Some(snap) => r.2 matches Some(m) && m@ == snap.2,
            None => r.2 is None,
        },
{
    match edit {
        Edit::CompositeEdit { edits, undo_cursor } => {
            let (ok, c) = undo_edits(lines, edits, top, cur);
            match undo_cursor {
                Some(snap) => (ok, (saturating_sub(snap.0, top), snap.1), Some(copy_positions(&snap.2))),
                None => (ok, c, None),
            }
        },
        _ => {
            let (ok, c) = apply_single_undo_edit(lines, edit, top, cur);
            (ok, c, None)
        },
    }
}

/// Redo a whole recorded edit on `lines`; returns whether it applied in
/// full, the cursor it leaves and the extra cursors of its snapshot.
pub(crate) fn redo_recorded(lines: &mut Vec<String>, edit: &Edit, top: usize, cur: (usize, usize)) -> (r: (bool, (usize, usize), Option<Vec<Position>>))
    requires
        top + cur.0 <= usize::MAX,
    ensures
        doc(final(lines)@) == redo_edit_doc(*edit, doc(old(lines)@)),
        r.0 == redo_edit_ok(*edit, doc(old(lines)@)),
        (r.1.0 as int, r.1.1 as int) == redo_edit_cursor(*edit, doc(old(lines)@), top as int, (cur.0 as int, cur.1 as int)),
        top + r.1.0 <= usize::MAX,
        match edit_snapshot(*edit) {
            Some(snap) => r.2 matches Some(m) && m@ == snap.2,
            None => r.2 is None,
        },
{
    match edit {
        Edit::CompositeEdit { edits, undo_cursor } => {
            let (ok, c) = redo_edits(lines, edits, top, cur);
            match undo_cursor {
                Some(snap) => (ok, (saturating_sub(snap.0, top), snap.1), Some(copy_positions(&snap.2))),
                None => (ok, c, None),
            }
        },
        _ => {
            let (ok, c) = apply_single_redo_edit(lines, edit, top, cur);
            (ok, c, None)
        },
    }
}

/// Where the view and cursor row go after a history step that applied, for
/// the view of `s` with the cursor on screen row `cursor_line`: back on screen
/// when the lines can be measured, otherwise left where they are.
pub open spec fn settled_view(s: FileViewerState, cursor_line: int, lines: Seq<String>, visible_lines: usize) -> (int, int, Option<usize>, Option<(usize, usize)>) {
    if s.spec_wrapping() || lines_fit(lines, s.settings.tab_width) {
        let abs = match s.saved_absolute_cursor {
            Some(l) => l as int,
            None => s.top_line + cursor_line,
        };
        let v = restored_view(s.top_line as int, cursor_line, abs, s.spec_effective_visible_lines(lines, visible_lines));
        (v.0, v.1, None, None)
    } else {
        (s.top_line as int, cursor_line, s.saved_absolute_cursor, s.saved_scroll_state)
    }
}

fn settled_values(state: &FileViewerState, lines: &Vec<String>, visible_lines: usize) -> (r: (usize, usize, Option<usize>, Option<(usize, usize)>))
    requires
        state.top_line + state.cursor_line <= usize::MAX,
    ensures
        (r.0 as int, r.1 as int, r.2, r.3) == settled_view(*state, state.cursor_line as int, lines@, visible_lines),
        r.2 is None ==> r.0 + r.1 <= usize::MAX,
{
    if state.is_line_wrapping_enabled() || lines_fit_check(lines.as_slice(), state.settings.tab_width) {
        let abs = state.absolute_line();
        let eff = state.effective_visible_lines(lines.as_slice(), visible_lines);
        let (t, cl) = restore_view(state.top_line, state.cursor_line, abs, eff);
        (t, cl, None, None)
    } else {
        (state.top_line, state.cursor_line, state.saved_absolute_cursor, state.saved_scroll_state)
    }
}

/// After a history step that applied: bring the cursor back on screen, record
/// the view and document in the history and take the history's modified
/// flag.  Nothing changes when the step did not apply.
fn settle_after_history_step(state: &mut FileViewerState, lines: &Vec<String>, visible_lines: usize, applied: bool)
    requires
        old(state).top_line + old(state).cursor_line <= usize::MAX,
    ensures
        same_outside_editing(*final(state), *old(state)),
        final(state).cursor_col == old(state).cursor_col,
        final(state).desired_cursor_col == old(state).desired_cursor_col,
        final(state).selection_start == old(state).selection_start,
        final(state).selection_end == old(state).selection_end,
        final(state).selection_anchor == old(state).selection_anchor,
        final(state).block_selection == old(state).block_selection,
        final(state).multi_cursors == old(state).multi_cursors,
        final(state).needs_redraw == old(state).needs_redraw,
        final(state).cursor_at_wrap_end == old(state).cursor_at_wrap_end,
        !applied ==> final(state).top_line == old(state).top_line && final(state).cursor_line == old(state).cursor_line
            && final(state).saved_absolute_cursor == old(state).saved_absolute_cursor
            && final(state).saved_scroll_state == old(state).saved_scroll_state
            && final(state).modified == old(state).modified
            && final(state).undo_history == old(state).undo_history,
        applied ==> ({
            let v = settled_view(*old(state), old(state).cursor_line as int, lines@, visible_lines);
            &&& final(state).top_line == v.0
            &&& final(state).cursor_line == v.1
            &&& final(state).saved_absolute_cursor == v.2
            &&& final(state).saved_scroll_state == v.3
            &&& final(state).modified == old(state).undo_history.modified
            &&& final(state).undo_history.content@ == lines@
            &&& final(state).undo_history.top_line == final(state).top_line
            &&& final(state).undo_history.cursor_line == final(state).spec_absolute_line()
            &&& final(state).undo_history.cursor_col == final(state).cursor_col
            &&& final(state).undo_history.edits == old(state).undo_history.edits
            &&& final(state).undo_history.current == old(state).undo_history.current
            &&& final(state).undo_history.modified == old(state).undo_history.modified
            &&& final(state).undo_history.find_history == old(state).undo_history.find_history
        }),
{
    if !applied {
        return;
    }
    let (t, cl, sa, ss) = settled_values(state, lines, visible_lines);
    let abs_after = match sa {
        Some(l) => l,
        None => t + cl,
    };
    let m = state.undo_history.modified;
    let col = state.cursor_col;
    state.undo_history.update_state(t, abs_after, col, copy_lines(lines));
    state.top_line = t;
    state.cursor_line = cl;
    state.saved_absolute_cursor = sa;
    state.saved_scroll_state = ss;
    state.modified = m;
}

/// Undo edit `idx` of the history on `lines` (see `undo_recorded`).
fn undo_at(lines: &mut Vec<String>, h: &UndoHistory, idx: usize, top: usize, cur: (usize, usize)) -> (r: (bool, (usize, usize), Option<Vec<Position>>))
    requires
        idx < h.edits@.len(),
        top + cur.0 <= usize::MAX,
    ensures
        ({
            let e = h.edits@[idx as int];
            &&& doc(final(lines)@) == undo_edit_doc(e, doc(old(lines)@))
            &&& r.0 == undo_edit_ok(e, doc(old(lines)@))
            &&& (r.1.0 as int, r.1.1 as int) == undo_edit_cursor(e, doc(old(lines)@), top as int, (cur.0 as int, cur.1 as int))
            &&& top + r.1.0 <= usize::MAX
            &&& match edit_snapshot(e) {
                Some(snap) => r.2 matches Some(m) && m@ == snap.2,
                None => r.2 is None,
            }
        }),
{
    undo_recorded(lines, &h.edits[idx], top, cur)
}

/// Redo edit `idx` of the history on `lines` (see `redo_recorded`).
fn redo_at(lines: &mut Vec<String>, h: &UndoHistory, idx: usize, top: usize, cur: (usize, usize)) -> (r: (bool, (usize, usize), Option<Vec<Position>>))
    requires
        idx < h.edits@.len(),
        top + cur.0 <= usize::MAX,
    ensures
        ({
            let e = h.edits@[idx as int];
            &&& doc(final(lines)@) == redo_edit_doc(e, doc(old(lines)@))
            &&& r.0 == redo_edit_ok(e, doc(old(lines)@))
            &&& (r.1.0 as int, r.1.1 as int) == redo_edit_cursor(e, doc(old(lines)@), top as int, (cur.0 as int, cur.1 as int))
            &&& top + r.1.0 <= usize::MAX
            &&& match edit_snapshot(e) {
                Some(snap) => r.2 matches Some(m) && m@ == snap.2,
                None => r.2 is None,
            }
        }),
{
    redo_recorded(lines, &h.edits[idx], top, cur)
}

/// Put the cursor at `c` (screen row, column) with `multi` as the extra cursors.
fn place_cursor(state: &mut FileViewerState, c: (usize, usize), multi: Vec<Position>)
    ensures
        same_outside_editing(*final(state), *old(state)),
        final(state).cursor_line == c.0,
        final(state).cursor_col == c.1,
        final(state).multi_cursors == multi,
        final(state).top_line == old(state).top_line,
        final(state).desired_cursor_col == old(state).desired_cursor_col,
        final(state).selection_start == old(state).selection_start,
        final(state).selection_end == old(state).selection_end,
        final(state).selection_anchor == old(state).selection_anchor,
        final(state).block_selection == old(state).block_selection,
        final(state).needs_redraw == old(state).needs_redraw,
        final(state).modified == old(state).modified,
        final(state).undo_history == old(state).undo_history,
        final(state).saved_absolute_cursor == old(state).saved_absolute_cursor,
        final(state).saved_scroll_state == old(state).saved_scroll_state,
        final(state).cursor_at_wrap_end == old(state).cursor_at_wrap_end,
{
    state.cursor_line = c.0;
    state.cursor_col = c.1;
    state.multi_cursors = multi;
}

/// Undo the most recent edit (a composite one as a whole, last edit first).
/// Returns whether it applied in full; the edit becomes redoable either
/// way.  When it applied, the cursor is brought back on screen and
/// the view and document are recorded in the history.
#[verifier::rlimit(100)]
#[verifier::spinoff_prover]
pub fn apply_undo(state: &mut FileViewerState, lines: &mut Vec<String>, visible_lines: usize) -> (applied: bool)
    requires
        old(state).top_line + old(state).cursor_line <= usize::MAX,
    ensures
        same_outside_editing(*final(state), *old(state)),
        final(state).desired_cursor_col == old(state).desired_cursor_col,
        final(state).selection_start == old(state).selection_start,
        final(state).selection_end == old(state).selection_end,
        final(state).selection_anchor == old(state).selection_anchor,
        final(state).block_selection == old(state).block_selection,
        final(state).needs_redraw == old(state).needs_redraw,
        final(state).cursor_at_wrap_end == old(state).cursor_at_wrap_end,
        !(0 < old(state).undo_history.current <= old(state).undo_history.edits@.len())
            ==> !applied && *final(state) == *old(state) && final(lines)@ == old(lines)@,
        (0 < old(state).undo_history.current <= old(state).undo_history.edits@.len()) ==> ({
            let e = old(state).undo_history.edits@[old(state).undo_history.current - 1];
            let d = doc(old(lines)@);
            let c = undo_edit_cursor(e, d, old(state).top_line as int, (old(state).cursor_line as int, old(state).cursor_col as int));
            let v = settled_view(*old(state), c.0, final(lines)@, visible_lines);
            &&& doc(final(lines)@) == undo_edit_doc(e, d)
            &&& applied == undo_edit_ok(e, d)
            &&& final(state).undo_history.edits == old(state).undo_history.edits
            &&& final(state).undo_history.current == old(state).undo_history.current - 1
            &&& final(state).undo_history.modified == (final(state).undo_history.current > 0)
            &&& final(state).undo_history.find_history == old(state).undo_history.find_history
            &&& final(state).cursor_col == c.1
            &&& final(state).multi_cursors@ == match edit_snapshot(e) {
                Some(snap) => snap.2,
                None => old(state).multi_cursors@,
            }
            &&& applied ==> final(state).top_line == v.0 && final(state).cursor_line == v.1
                && final(state).saved_absolute_cursor == v.2 && final(state).saved_scroll_state == v.3
                && final(state).modified == final(state).undo_history.modified
                && final(state).undo_history.content@ == final(lines)@
                && final(state).undo_history.top_line == final(state).top_line
                && final(state).undo_history.cursor_line == final(state).spec_absolute_line()
                && final(state).undo_history.cursor_col == final(state).cursor_col
            &&& !applied ==> final(state).top_line == old(state).top_line && final(state).cursor_line == c.0
                && final(state).saved_absolute_cursor == old(state).saved_absolute_cursor
                && final(state).saved_scroll_state == old(state).saved_scroll_state
                && final(state).modified == old(state).modified
                && final(state).undo_history.content == old(state).undo_history.content
                && final(state).undo_history.top_line == old(state).undo_history.top_line
                && final(state).undo_history.cursor_line == old(state).undo_history.cursor_line
                && final(state).undo_history.cursor_col == old(state).undo_history.cursor_col
        }),
{
    if state.undo_history.current == 0 || state.undo_history.current > state.undo_history.edits.len() {
        return false;
    }
    let top = state.top_line;
    let cur = (state.cursor_line, state.cursor_col);
    let idx = state.undo_history.current - 1;
    state.undo_history.step_back();
    let (ok, c, multi) = undo_at(lines, &state.undo_history, idx, top, cur);
    let m = match multi {
        Some(m) => m,
        None => copy_positions(&state.multi_cursors),
    };
    place_cursor(state, c, m);
    settle_after_history_step(state, lines, visible_lines, ok);
    ok
}

/// Redo the most recently undone edit (a composite one as a whole, first
/// edit first).  Returns whether it applied in full; the edit becomes
/// undoable again either way.  When it applied, the cursor is brought back
/// on screen and the view and document are recorded in the history.
#[verifier::rlimit(100)]
#[verifier::spinoff_prover]
pub fn apply_redo(state: &mut FileViewerState, lines: &mut Vec<String>, visible_lines: usize) -> (applied: bool)
    requires
        old(state).top_line + old(state).cursor_line <= usize::MAX,
    ensures
        same_outside_editing(*final(state), *old(state)),
        final(state).desired_cursor_col == old(state).desired_cursor_col,
        final(state).selection_start == old(state).selection_start,
        final(state).selection_end == old(state).selection_end,
        final(state).selection_anchor == old(state).selection_anchor,
        final(state).block_selection == old(state).block_selection,
        final(state).needs_redraw == old(state).needs_redraw,
        final(state).cursor_at_wrap_end == old(state).cursor_at_wrap_end,
        old(state).undo_history.current >= old(state).undo_history.edits@.len()
            ==> !applied && *final(state) == *old(state) && final(lines)@ == old(lines)@,
        old(state).undo_history.current < old(state).undo_history.edits@.len() ==> ({
            let e = old(state).undo_history.edits@[old(state).undo_history.current as int];
            let d = doc(old(lines)@);
            let c = redo_edit_cursor(e, d, old(state).top_line as int, (old(state).cursor_line as int, old(state).cursor_col as int));
            let v = settled_view(*old(state), c.0, final(lines)@, visible_lines);
            &&& doc(final(lines)@) == redo_edit_doc(e, d)
            &&& applied == redo_edit_ok(e, d)
            &&& final(state).undo_history.edits == old(state).undo_history.edits
            &&& final(state).undo_history.current == old(state).undo_history.current + 1
            &&& final(state).undo_history.modified
            &&& final(state).undo_history.find_history == old(state).undo_history.find_history
            &&& final(state).cursor_col == c.1
            &&& final(state).multi_cursors@ == match edit_snapshot(e) {
                Some(snap) => snap.2,
                None => old(state).multi_cursors@,
            }
            &&& applied ==> final(state).top_line == v.0 && final(state).cursor_line == v.1
                && final(state).saved_absolute_cursor == v.2 && final(state).saved_scroll_state == v.3
                && final(state).modified == final(state).undo_history.modified
                && final(state).undo_history.content@ == final(lines)@
                && final(state).undo_history.top_line == final(state).top_line
                && final(state).undo_history.cursor_line == final(state).spec_absolute_line()
                && final(state).undo_history.cursor_col == final(state).cursor_col
            &&& !applied ==> final(state).top_line == old(state).top_line && final(state).cursor_line == c.0
                && final(state).saved_absolute_cursor == old(state).saved_absolute_cursor
                && final(state).saved_scroll_state == old(state).saved_scroll_state
                && final(state).modified == old(state).modified
                && final(state).undo_history.content == old(state).undo_history.content
                && final(state).undo_history.top_line == old(state).undo_history.top_line
                && final(state).undo_history.cursor_line == old(state).undo_history.cursor_line
                && final(state).undo_history.cursor_col == old(state).undo_history.cursor_col
        }),
{
    if state.undo_history.current >= state.undo_history.edits.len() {
        return false;
    }
    let top = state.top_line;
    let cur = (state.cursor_line, state.cursor_col);
    let idx = state.undo_history.current;
    state.undo_history.step_forward();
    let (ok, c, multi) = redo_at(lines, &state.undo_history, idx, top, cur);
    let m = match multi {
        Some(m) => m,
        None => copy_positions(&state.multi_cursors),
    };
    place_cursor(state, c, m);
    settle_after_history_step(state, lines, visible_lines, ok);
    ok
}

// ---------------------------------------------------------------------------
// Editing at the cursor
// ---------------------------------------------------------------------------

/// `new` is `old` after an edit was recorded: the edits `es` were pushed on
/// the history (dropping the undone edits when there are any), the history
/// snapshot is `(top, snap_line, snap_col, lines)`, and the view and cursor
/// are as given; selection, extra cursors, the modified and redraw flags and
/// everything outside editing are unchanged.
pub open spec fn committed(
    new: FileViewerState,
    old: FileViewerState,
    lines: Seq<String>,
    es: Seq<Edit>,
    top: usize,
    cursor_line: usize,
    cursor_col: usize,
    desired: usize,
    wrap_end: bool,
    snap_line: usize,
    snap_col: usize,
) -> bool {
    &&& same_outside_editing(new, old)
    &&& es.len() > 0 ==> new.undo_history.edits@ == undoable(old.undo_history) + es
        && new.undo_history.current == new.undo_history.edits@.len() && new.undo_history.modified
    &&& es.len() == 0 ==> new.undo_history.edits == old.undo_history.edits
        && new.undo_history.current == old.undo_history.current
        && new.undo_history.modified == old.undo_history.modified
    &&& new.undo_history.find_history == old.undo_history.find_history
    &&& new.undo_history.top_line == top
    &&& new.undo_history.cursor_line == snap_line
    &&& new.undo_history.cursor_col == snap_col
    &&& new.undo_history.content@ == lines
    &&& new.top_line == top
    &&& new.cursor_line == cursor_line
    &&& new.cursor_col == cursor_col
    &&& new.desired_cursor_col == desired
    &&& new.cursor_at_wrap_end == wrap_end
    &&& new.selection_start == old.selection_start
    &&& new.selection_end == old.selection_end
    &&& new.selection_anchor == old.selection_anchor
    &&& new.block_selection == old.block_selection
    &&& new.multi_cursors == old.multi_cursors
    &&& new.needs_redraw == old.needs_redraw
    &&& new.modified == old.modified
    &&& new.saved_absolute_cursor == old.saved_absolute_cursor
    &&& new.saved_scroll_state == old.saved_scroll_state
}

/// Push `edits` on the history, one by one.
pub(crate) fn push_edits(history: &mut UndoHistory, edits: Vec<Edit>)
    ensures
        edits@.len() > 0 ==> final(history).edits@ == undoable(*old(history)) + edits@
            && final(history).current == final(history).edits@.len() && final(history).modified,
        edits@.len() == 0 ==> *final(history) == *old(history),
        final(history).find_history == old(history).find_history,
        final(history).top_line == old(history).top_line,
        final(history).cursor_line == old(history).cursor_line,
        final(history).cursor_col == old(history).cursor_col,
        final(history).content == old(history).content,
{
    let ghost es = edits@;
    let ghost base = undoable(*history);
    assert(es.len() == edits.len());
    let mut rest = edits;
    let mut k: usize = 0;
    while rest.len() > 0
        invariant
            base == undoable(*old(history)),
            es.len() <= usize::MAX,
            k + rest@.len() == es.len(),
            rest@ == es.skip(k as int),
            k > 0 ==> history.edits@ == base + es.take(k as int) && history.current == history.edits@.len()
                && history.modified,
            k == 0 ==> *history == *old(history),
            history.find_history == old(history).find_history,
            history.top_line == old(history).top_line,
            history.cursor_line == old(history).cursor_line,
            history.cursor_col == old(history).cursor_col,
            history.content == old(history).content,
        decreases rest@.len(),
    {
        let e = rest.remove(0);
        assert(e == es[k as int]);
        proof {
            if k > 0 {
                assert(undoable(*history) == history.edits@.take(history.current as int));
                assert(history.edits@.take(history.current as int) =~= history.edits@);
                assert(undoable(*history) == base + es.take(k as int));
            } else {
                assert(es.take(0) =~= Seq::<Edit>::empty());
                assert(base + es.take(0) =~= base);
                assert(*history == *old(history));
                assert(undoable(*history) == base);
                assert(undoable(*history) == base + es.take(k as int));
            }
        }
        history.push(e);
        assert(es.take(k + 1) =~= es.take(k as int).push(es[k as int]));
        k = k + 1;
        assert(rest@ =~= es.skip(k as int));
        assert(history.edits@ =~= base + es.take(k as int));
    }
    assert(es.take(es.len() as int) =~= es);
}

/// A list holding just `e`.
fn one_edit(e: Edit) -> (v: Vec<Edit>)
    ensures
        v@ == seq![e],
{
    let mut v: Vec<Edit> = Vec::new();
    v.push(e);
    assert(v@ =~= seq![e]);
    v
}

/// Record `edits` and move the cursor: see `committed`.
#[verifier::rlimit(40)]
fn commit_edits(
    state: &mut FileViewerState,
    lines: &Vec<String>,
    edits: Vec<Edit>,
    top: usize,
    cursor_line: usize,
    cursor_col: usize,
    desired: usize,
    wrap_end: bool,
    snap_line: usize,
    snap_col: usize,
)
    ensures
        committed(*final(state), *old(state), lines@, edits@, top, cursor_line, cursor_col, desired, wrap_end, snap_line, snap_col),
{
    push_edits(&mut state.undo_history, edits);
    state.undo_history.update_state(top, snap_line, snap_col, copy_lines(lines));
    state.top_line = top;
    state.cursor_line = cursor_line;
    state.cursor_col = cursor_col;
    state.desired_cursor_col = desired;
    state.cursor_at_wrap_end = wrap_end;
}

/// Record the single edit `e` and move the cursor: see `committed`.
fn commit_edit(
    state: &mut FileViewerState,
    lines: &Vec<String>,
    e: Edit,
    top: usize,
    cursor_line: usize,
    cursor_col: usize,
    desired: usize,
    wrap_end: bool,
    snap_line: usize,
    snap_col: usize,
)
    ensures
        committed(*final(state), *old(state), lines@, seq![e], top, cursor_line, cursor_col, desired, wrap_end, snap_line, snap_col),
        final(state).undo_history.edits@ == undoable(old(state).undo_history).push(e),
        final(state).undo_history.edits@.last() == e,
{
    let ghost base = undoable(state.undo_history);
    let ghost ge = e;
    let es = one_edit(e);
    commit_edits(state, lines, es, top, cursor_line, cursor_col, desired, wrap_end, snap_line, snap_col);
    proof {
        lemma_pushed_last(base, ge);
        assert(base + seq![ge] =~= base.push(ge));
    }
}

/// `n` and `nl` are `o` and `ol` after `insert_char` with result `r`: the cursor's line got `c` at the cursor, or nothing changed.
pub open spec fn char_inserted(o: FileViewerState, n: FileViewerState, ol: Seq<String>, nl: Seq<String>, c: char, r: bool) -> bool {
    let idx = o.spec_absolute_line();
    let col = o.cursor_col;
    let d = doc(ol);
    let e = Edit::InsertChar { line: idx as usize, col, ch: c };
    &&& r == (0 <= idx < d.len() && col <= d[idx].len())
    &&& r ==> doc(nl) == d.update(idx, d[idx].insert(col as int, c))
        && redo_doc(e, d) == Some(doc(nl)) && recorded_from(e, d)
        && committed(n, o, nl, seq![e], o.top_line,
            o.cursor_line, (col + 1) as usize, (col + 1) as usize, false, idx as usize, (col + 1) as usize)
    &&& !r ==> n == o && nl == ol
}

/// Type `c` at the cursor: it is inserted before the cursor column, which
/// then moves past it.  Nothing happens (and `false` is returned) when the
/// cursor is past the last line or past the end of its line.
pub fn insert_char(state: &mut FileViewerState, lines: &mut Vec<String>, c: char) -> (inserted: bool)
    requires
        old(state).top_line + old(state).cursor_line <= usize::MAX,
    ensures
        char_inserted(*old(state), *final(state), old(lines)@, final(lines)@, c, inserted),

{
    let idx = state.absolute_line();
    if idx >= lines.len() {
        return false;
    }
    let col = state.cursor_col;
    let n = lines[idx].unicode_len();
    if col > n {
        return false;
    }
    let ghost d = doc(lines@);
    let new_line = insert_char_at(&lines[idx], col, c);
    let m = new_line.unicode_len();
    lines.set(idx, new_line);
    assert(doc(lines@) =~= d.update(idx as int, d[idx as int].insert(col as int, c)));
    let top = state.top_line;
    let cl = state.cursor_line;
    commit_edit(state, lines, Edit::InsertChar { line: idx, col, ch: c }, top, cl, col + 1, col + 1, false, idx, col + 1);
    true
}

/// Cursor, view and history snapshot after joining the cursor's line onto
/// the previous one (`prev_len` characters long before the join): the cursor
/// row moves up (or the view scrolls up at the top), the column goes to the
/// join point, clamped to the line the cursor then points at.
/// Returns (top, cursor row, column, snapshot line).
pub open spec fn merge_up_view(s: FileViewerState, lines: Seq<String>, prev_len: int) -> (int, int, int, int) {
    let top = if s.cursor_line > 0 { s.top_line as int } else { sat_sub(s.top_line as int, 1) };
    let cl = if s.cursor_line > 0 { s.cursor_line - 1 } else { s.cursor_line as int };
    let abs = match s.saved_absolute_cursor {
        Some(l) => l as int,
        None => top + cl,
    };
    let col = if 0 <= abs < lines.len() && prev_len > lines[abs]@.len() { lines[abs]@.len() as int } else { prev_len };
    (top, cl, col, abs)
}

/// The column clamped to the length of the line the cursor points at.
pub open spec fn clamped_col(s: FileViewerState, lines: Seq<String>, col: int) -> int {
    let abs = s.spec_absolute_line();
    if 0 <= abs < lines.len() && col > lines[abs]@.len() { lines[abs]@.len() as int } else { col }
}

/// Delete the character before the cursor (case of `delete_backward`).
fn delete_char_before(state: &mut FileViewerState, lines: &mut Vec<String>, idx: usize)
    requires
        idx == old(state).spec_absolute_line(),
        idx < old(lines)@.len(),
        0 < old(state).cursor_col <= old(lines)@[idx as int]@.len(),
    ensures
        ({
            let col = old(state).cursor_col;
            let d = doc(old(lines)@);
            let e = Edit::DeleteChar { line: idx, col: (col - 1) as usize, ch: d[idx as int][col - 1] };
            &&& doc(final(lines)@) == d.update(idx as int, d[idx as int].remove(col - 1))
            &&& redo_doc(e, d) == Some(doc(final(lines)@)) && recorded_from(e, d)
            &&& committed(*final(state), *old(state), final(lines)@, seq![e], old(state).top_line,
                old(state).cursor_line, (col - 1) as usize, (col - 1) as usize, old(state).cursor_at_wrap_end,
                idx, (col - 1) as usize)
            &&& final(state).undo_history.edits@.last() == e
        }),
{
    let ghost d = doc(lines@);
    let col = state.cursor_col;
    let ch = lines[idx].as_str().get_char(col - 1);
    let new_line = remove_char_at(&lines[idx], col - 1);
    lines.set(idx, new_line);
    assert(doc(lines@) =~= d.update(idx as int, d[idx as int].remove(col - 1)));
    let top = state.top_line;
    let cl = state.cursor_line;
    let w = state.cursor_at_wrap_end;
    commit_edit(state, lines, Edit::DeleteChar { line: idx, col: col - 1, ch }, top, cl, col - 1, col - 1, w, idx, col - 1);
}

/// Join the cursor's line onto the previous one (case of `delete_backward`).
fn merge_with_previous(state: &mut FileViewerState, lines: &mut Vec<String>, idx: usize)
    requires
        idx == old(state).spec_absolute_line(),
        0 < idx < old(lines)@.len(),
        old(state).top_line + old(state).cursor_line <= usize::MAX,
    ensures
        ({
            let d = doc(old(lines)@);
            let e = final(state).undo_history.edits@.last();
            let v = merge_up_view(*old(state), final(lines)@, d[idx - 1].len() as int);
            &&& doc(final(lines)@) == d.update(idx - 1, d[idx - 1] + d[idx as int]).remove(idx as int)
            &&& (e matches Edit::MergeLine { line, first, second } && line == idx - 1 && first@ == d[idx - 1] && second@ == d[idx as int])
            &&& redo_doc(e, d) == Some(doc(final(lines)@)) && recorded_from(e, d)
            &&& committed(*final(state), *old(state), final(lines)@, seq![e], v.0 as usize, v.1 as usize,
                v.2 as usize, v.2 as usize, old(state).cursor_at_wrap_end, v.3 as usize, d[idx - 1].len() as usize)
        }),
{
    let ghost d = doc(lines@);
    let current = lines.remove(idx);
    let prev_len = lines[idx - 1].unicode_len();
    let first = copy_string(&lines[idx - 1]);
    let merged = concat_str(&lines[idx - 1], &current);
    lines.set(idx - 1, merged);
    assert(doc(lines@) =~= d.update(idx - 1, d[idx - 1] + d[idx as int]).remove(idx as int));
    let (top, cl) = if state.cursor_line > 0 {
        (state.top_line, state.cursor_line - 1)
    } else {
        (saturating_sub(state.top_line, 1), state.cursor_line)
    };
    let abs = match state.saved_absolute_cursor {
        Some(l) => l,
        None => top + cl,
    };
    let col = if abs < lines.len() {
        let n = lines[abs].unicode_len();
        if prev_len > n { n } else { prev_len }
    } else {
        prev_len
    };
    let w = state.cursor_at_wrap_end;
    commit_edit(state, lines, Edit::MergeLine { line: idx - 1, first, second: current }, top, cl, col, col, w, abs, prev_len);
}

/// `n` and `nl` are `o` and `ol` after `delete_backward` with result `r`: the character before the cursor (or the line break before the line) was deleted, or nothing changed.
pub open spec fn backspace_done(o: FileViewerState, n: FileViewerState, ol: Seq<String>, nl: Seq<String>, r: bool) -> bool {
    let idx = o.spec_absolute_line();
    let col = o.cursor_col;
    let d = doc(ol);
    let by_char = 0 <= idx < d.len() && 0 < col <= d[idx].len();
    let by_merge = 0 < idx < d.len() && !by_char;
    let e = n.undo_history.edits@.last();
    &&& r == (by_char || by_merge)
    &&& by_char ==> doc(nl) == d.update(idx, d[idx].remove(col - 1))
        && e == Edit::DeleteChar { line: idx as usize, col: (col - 1) as usize, ch: d[idx][col - 1] }
        && committed(n, o, nl, seq![e], o.top_line,
            o.cursor_line, (col - 1) as usize, (col - 1) as usize, o.cursor_at_wrap_end,
            idx as usize, (col - 1) as usize)
    &&& by_merge ==> doc(nl) == d.update(idx - 1, d[idx - 1] + d[idx]).remove(idx)
        && (e matches Edit::MergeLine { line, first, second } && line == idx - 1 && first@ == d[idx - 1] && second@ == d[idx])
        && ({
            let v = merge_up_view(o, nl, d[idx - 1].len() as int);
            committed(n, o, nl, seq![e], v.0 as usize, v.1 as usize,
                v.2 as usize, v.2 as usize, o.cursor_at_wrap_end, v.3 as usize, d[idx - 1].len() as usize)
        })
    &&& r ==> redo_doc(e, d) == Some(doc(nl)) && recorded_from(e, d)
    &&& !r ==> n == o && nl == ol
}

/// Backspace: delete the character before the cursor; at the start of a line
/// (or past its end) join the line onto the previous one.  Returns whether
/// anything changed (nothing does on the first line's start, or when the
/// cursor is past the last line).
pub fn delete_backward(state: &mut FileViewerState, lines: &mut Vec<String>) -> (deleted: bool)
    requires
        old(state).top_line + old(state).cursor_line <= usize::MAX,
    ensures
        backspace_done(*old(state), *final(state), old(lines)@, final(lines)@, deleted),

{
    let idx = state.absolute_line();
    if idx >= lines.len() {
        return false;
    }
    let col = state.cursor_col;
    let n = lines[idx].unicode_len();
    if col > 0 && col <= n {
        delete_char_before(state, lines, idx);
        return true;
    }
    if idx > 0 {
        merge_with_previous(state, lines, idx);
        return true;
    }
    false
}

/// Delete the character under the cursor (case of `delete_forward`).
fn delete_char_at_cursor(state: &mut FileViewerState, lines: &mut Vec<String>, idx: usize)
    requires
        idx == old(state).spec_absolute_line(),
        idx < old(lines)@.len(),
        old(state).cursor_col < old(lines)@[idx as int]@.len(),
    ensures
        ({
            let col = old(state).cursor_col;
            let d = doc(old(lines)@);
            let e = Edit::DeleteChar { line: idx, col, ch: d[idx as int][col as int] };
            &&& doc(final(lines)@) == d.update(idx as int, d[idx as int].remove(col as int))
            &&& redo_doc(e, d) == Some(doc(final(lines)@)) && recorded_from(e, d)
            &&& committed(*final(state), *old(state), final(lines)@, seq![e], old(state).top_line,
                old(state).cursor_line, col, old(state).desired_cursor_col, old(state).cursor_at_wrap_end, idx, col)
            &&& final(state).undo_history.edits@.last() == e
        }),
{
    let ghost d = doc(lines@);
    let col = state.cursor_col;
    let ch = lines[idx].as_str().get_char(col);
    let new_line = remove_char_at(&lines[idx], col);
    lines.set(idx, new_line);
    assert(doc(lines@) =~= d.update(idx as int, d[idx as int].remove(col as int)));
    let top = state.top_line;
    let cl = state.cursor_line;
    let w = state.cursor_at_wrap_end;
    let dc = state.desired_cursor_col;
    commit_edit(state, lines, Edit::DeleteChar { line: idx, col, ch }, top, cl, col, dc, w, idx, col);
}

/// Join the next line onto the cursor's line (case of `delete_forward`).
fn merge_with_next(state: &mut FileViewerState, lines: &mut Vec<String>, idx: usize)
    requires
        idx == old(state).spec_absolute_line(),
        idx + 1 < old(lines)@.len(),
        old(state).top_line + old(state).cursor_line <= usize::MAX,
    ensures
        ({
            let d = doc(old(lines)@);
            let e = final(state).undo_history.edits@.last();
            let col = clamped_col(*old(state), final(lines)@, old(state).cursor_col as int);
            let desired = if col < old(state).cursor_col { col } else { old(state).desired_cursor_col as int };
            &&& doc(final(lines)@) == d.update(idx as int, d[idx as int] + d[idx + 1]).remove(idx + 1)
            &&& (e matches Edit::MergeLine { line, first, second } && line == idx && first@ == d[idx as int] && second@ == d[idx + 1])
            &&& redo_doc(e, d) == Some(doc(final(lines)@)) && recorded_from(e, d)
            &&& committed(*final(state), *old(state), final(lines)@, seq![e], old(state).top_line,
                old(state).cursor_line, col as usize, desired as usize, old(state).cursor_at_wrap_end, idx,
                old(state).cursor_col)
        }),
{
    let ghost d = doc(lines@);
    let len = lines.len();
    let next = lines.remove(idx + 1);
    let first = copy_string(&lines[idx]);
    let merged = concat_str(&lines[idx], &next);
    lines.set(idx, merged);
    assert(doc(lines@) =~= d.update(idx as int, d[idx as int] + d[idx + 1]).remove(idx + 1));
    let abs = state.absolute_line();
    let col0 = state.cursor_col;
    let (col, desired) = if abs < lines.len() {
        let n = lines[abs].unicode_len();
        if col0 > n { (n, n) } else { (col0, state.desired_cursor_col) }
    } else {
        (col0, state.desired_cursor_col)
    };
    let top = state.top_line;
    let cl = state.cursor_line;
    let w = state.cursor_at_wrap_end;
    commit_edit(state, lines, Edit::MergeLine { line: idx, first, second: next }, top, cl, col, desired, w, idx, col0);
}

/// `n` and `nl` are `o` and `ol` after `delete_forward` with result `r`: the character at the cursor (or the line break after the line) was deleted, or nothing changed.
pub open spec fn delete_done(o: FileViewerState, n: FileViewerState, ol: Seq<String>, nl: Seq<String>, r: bool) -> bool {
    let idx = o.spec_absolute_line();
    let col = o.cursor_col;
    let d = doc(ol);
    let by_char = 0 <= idx < d.len() && col < d[idx].len();
    let by_merge = 0 <= idx && idx + 1 < d.len() && !by_char;
    let e = n.undo_history.edits@.last();
    &&& r == (by_char || by_merge)
    &&& by_char ==> doc(nl) == d.update(idx, d[idx].remove(col as int))
        && e == Edit::DeleteChar { line: idx as usize, col, ch: d[idx][col as int] }
        && committed(n, o, nl, seq![e], o.top_line,
            o.cursor_line, col, o.desired_cursor_col, o.cursor_at_wrap_end,
            idx as usize, col)
    &&& by_merge ==> doc(nl) == d.update(idx, d[idx] + d[idx + 1]).remove(idx + 1)
        && (e matches Edit::MergeLine { line, first, second } && line == idx && first@ == d[idx] && second@ == d[idx + 1])
        && ({
            let c = clamped_col(o, nl, col as int);
            let desired = if c < col { c } else { o.desired_cursor_col as int };
            committed(n, o, nl, seq![e], o.top_line,
                o.cursor_line, c as usize, desired as usize, o.cursor_at_wrap_end,
                idx as usize, col)
        })
    &&& r ==> redo_doc(e, d) == Some(doc(nl)) && recorded_from(e, d)
    &&& !r ==> n == o && nl == ol
}

/// Delete: remove the character under the cursor; at (or past) the end of a
/// line join the next line onto it.  Returns whether anything changed
/// (nothing does at the end of the last line, or past the last line).
pub fn delete_forward(state: &mut FileViewerState, lines: &mut Vec<String>) -> (deleted: bool)
    requires
        old(state).top_line + old(state).cursor_line <= usize::MAX,
    ensures
        delete_done(*old(state), *final(state), old(lines)@, final(lines)@, deleted),

{
    let idx = state.absolute_line();
    if idx >= lines.len() {
        return false;
    }
    let col = state.cursor_col;
    let n = lines[idx].unicode_len();
    if col < n {
        delete_char_at_cursor(state, lines, idx);
        return true;
    }
    if idx + 1 < lines.len() {
        merge_with_next(state, lines, idx);
        return true;
    }
    false
}

/// Pushing `e` on `a` makes it the last element.
proof fn lemma_pushed_last(a: Seq<Edit>, e: Edit)
    ensures
        (a + seq![e]).len() == a.len() + 1,
        (a + seq![e]).last() == e,
{
}

/// The edits that typing `n` spaces at `(line, col)` records, one per space.
pub open spec fn space_edits(line: usize, col: usize, n: nat) -> Seq<Edit> {
    Seq::new(n, |i: int| Edit::InsertChar { line, col: (col + i) as usize, ch: ' ' })
}

/// `n` spaces.
pub open spec fn spaces(n: nat) -> Seq<char> {
    Seq::new(n, |i: int| ' ')
}

/// A string of `n` spaces.
fn space_string(n: usize) -> (r: String)
    ensures
        r@ == spaces(n as nat),
{
    let mut r = String::new();
    let mut i: usize = 0;
    while i < n
        invariant
            i <= n,
            r@ == spaces(i as nat),
        decreases n - i,
    {
        string_push(&mut r, ' ');
        i = i + 1;
        assert(r@ =~= spaces(i as nat));
    }
    r
}

/// `n` and `nl` are `o` and `ol` after `insert_tab` with result `r`: a tab's worth of spaces went in at the cursor, or nothing changed.
pub open spec fn tab_inserted(o: FileViewerState, n: FileViewerState, ol: Seq<String>, nl: Seq<String>, r: bool) -> bool {
    let idx = o.spec_absolute_line();
    let col = o.cursor_col;
    let tw = o.settings.tab_width;
    let d = doc(ol);
    &&& r == (0 <= idx < d.len() && col <= d[idx].len())
    &&& r ==> doc(nl) == d.update(idx, d[idx].take(col as int) + spaces(tw as nat) + d[idx].skip(col as int))
        && committed(n, o, nl, space_edits(idx as usize, col, tw as nat),
            o.top_line, o.cursor_line, (col + tw) as usize, (col + tw) as usize,
            o.cursor_at_wrap_end, idx as usize, (col + tw) as usize)
    &&& !r ==> n == o && nl == ol
}

/// Tab: insert `tab_width` spaces at the cursor, recorded as one insertion per
/// space, and move the cursor past them.  Nothing happens when the cursor is
/// past the last line or past the end of its line.
pub fn insert_tab(state: &mut FileViewerState, lines: &mut Vec<String>) -> (inserted: bool)
    requires
        old(state).top_line + old(state).cursor_line <= usize::MAX,
    ensures
        tab_inserted(*old(state), *final(state), old(lines)@, final(lines)@, inserted),

{
    let idx = state.absolute_line();
    if idx >= lines.len() {
        return false;
    }
    let col = state.cursor_col;
    let n = lines[idx].unicode_len();
    if col > n {
        return false;
    }
    let tw = state.settings.tab_width;
    let ghost d = doc(lines@);
    let head = substring(&lines[idx], 0, col);
    let tail = substring(&lines[idx], col, n);
    let sp = space_string(tw);
    let with_spaces = concat_str(&head, &sp);
    let new_line = concat_str(&with_spaces, &tail);
    let m = new_line.unicode_len();
    lines.set(idx, new_line);
    assert(doc(lines@) =~= d.update(idx as int, d[idx as int].take(col as int) + spaces(tw as nat) + d[idx as int].skip(col as int)));
    let mut edits: Vec<Edit> = Vec::new();
    let mut i: usize = 0;
    while i < tw
        invariant
            i <= tw,
            col + tw <= usize::MAX,
            edits@ == space_edits(idx, col, i as nat),
        decreases tw - i,
    {
        edits.push(Edit::InsertChar { line: idx, col: col + i, ch: ' ' });
        i = i + 1;
        assert(edits@ =~= space_edits(idx, col, i as nat));
    }
    let top = state.top_line;
    let cl = state.cursor_line;
    let w = state.cursor_at_wrap_end;
    commit_edits(state, lines, edits, top, cl, col + tw, col + tw, w, idx, col + tw);
    true
}

/// View after Enter: the cursor moves one row down, or the view scrolls when
/// the cursor is on the last visible row.  Returns (top, cursor row,
/// snapshot line).
pub open spec fn split_view(s: FileViewerState, visible_lines: usize) -> (int, int, int) {
    let top = if s.cursor_line + 1 < visible_lines { s.top_line as int } else { s.top_line + 1 };
    let cl = if s.cursor_line + 1 < visible_lines { s.cursor_line + 1 } else { s.cursor_line as int };
    let abs = match s.saved_absolute_cursor {
        Some(l) => l as int,
        None => top + cl,
    };
    (top, cl, abs)
}

/// `n` and `nl` are `o` and `ol` after `split_line` with result `r`: the cursor's line was split at the cursor, or nothing changed.
pub open spec fn line_split(o: FileViewerState, n: FileViewerState, ol: Seq<String>, nl: Seq<String>, visible_lines: usize, r: bool) -> bool {
    let idx = o.spec_absolute_line();
    let d = doc(ol);
    &&& r == (0 <= idx < d.len())
    &&& r ==> ({
        let at = min_int(o.cursor_col as int, d[idx].len() as int);
        let e = n.undo_history.edits@.last();
        let v = split_view(o, visible_lines);
        &&& doc(nl) == d.update(idx, d[idx].take(at)).insert(idx + 1, d[idx].skip(at))
        &&& (e matches Edit::SplitLine { line, col, before, after } && line == idx && col == at
            && before@ == d[idx].take(at) && after@ == d[idx].skip(at))
        &&& redo_doc(e, d) == Some(doc(nl)) && recorded_from(e, d)
        &&& committed(n, o, nl, seq![e], v.0 as usize, v.1 as usize,
            0, 0, o.cursor_at_wrap_end, v.2 as usize, 0)
    })
    &&& !r ==> n == o && nl == ol
}

/// Enter: split the cursor's line at the cursor (clamped to the line's end);
/// the text after it moves to a new line below, and the cursor goes to the
/// start of that line.  Nothing happens when the cursor is past the last line.
pub fn split_line(state: &mut FileViewerState, lines: &mut Vec<String>, visible_lines: usize) -> (split: bool)
    requires
        old(state).top_line + old(state).cursor_line < usize::MAX,
    ensures
        line_split(*old(state), *final(state), old(lines)@, final(lines)@, visible_lines, split),

{
    let idx = state.absolute_line();
    if idx >= lines.len() {
        return false;
    }
    let ghost d = doc(lines@);
    let ghost old_edits = undoable(state.undo_history);
    let n = lines[idx].unicode_len();
    let at = if state.cursor_col < n { state.cursor_col } else { n };
    let before = substring(&lines[idx], 0, at);
    let after = substring(&lines[idx], at, n);
    lines.set(idx, copy_string(&before));
    lines.insert(idx + 1, copy_string(&after));
    assert(doc(lines@) =~= d.update(idx as int, d[idx as int].take(at as int)).insert(idx + 1, d[idx as int].skip(at as int)));
    let (top, cl) = if state.cursor_line + 1 < visible_lines {
        (state.top_line, state.cursor_line + 1)
    } else {
        (state.top_line + 1, state.cursor_line)
    };
    let abs = match state.saved_absolute_cursor {
        Some(l) => l,
        None => top + cl,
    };
    let w = state.cursor_at_wrap_end;
    let ghost e = Edit::SplitLine { line: idx, col: at, before, after };
    commit_edit(state, lines, Edit::SplitLine { line: idx, col: at, before, after }, top, cl, 0, 0, w, abs, 0);
    proof {
        lemma_pushed_last(old_edits, e);
        assert(d[idx as int].take(at as int) + d[idx as int].skip(at as int) =~= d[idx as int]);
    }
    true
}

// ---------------------------------------------------------------------------
// Word-wise deletion
// ---------------------------------------------------------------------------

/// Whether position `i` of `l` holds a word character (positions outside the
/// line count as non-word).
pub open spec fn word_at(l: Seq<char>, i: int) -> bool {
    0 <= i < l.len() && word_char(l[i])
}

/// Step left from `k` while the character before is (`word`) / is not a word
/// character.
pub open spec fn back_while(l: Seq<char>, k: int, word: bool) -> int
    decreases k,
{
    if k <= 0 {
        0
    } else if word_at(l, k - 1) != word {
        k
    } else {
        back_while(l, k - 1, word)
    }
}

/// Step right from `k` (up to `limit`) while the character is (`word`) / is
/// not a word character.
pub open spec fn fwd_while(l: Seq<char>, k: int, limit: int, word: bool) -> int
    decreases limit - k,
{
    if k >= limit {
        k
    } else if word_at(l, k) != word {
        k
    } else {
        fwd_while(l, k + 1, limit, word)
    }
}

/// Start of the word that Ctrl+Backspace deletes from column `col`: skip
/// non-word characters leftwards, then word characters.
pub open spec fn word_start_before(l: Seq<char>, col: int) -> int {
    back_while(l, back_while(l, col, false), true)
}

/// End of the word that Ctrl+Delete deletes from column `col`: skip non-word
/// characters rightwards (bounded by the line's byte length), then word
/// characters (bounded by its character count).
pub open spec fn word_end_after(l: Seq<char>, col: int) -> int {
    fwd_while(l, fwd_while(l, col, byte_len(l) as int, false), l.len() as int, true)
}

/// Executable `back_while`.
pub(crate) fn scan_back(chars: &Vec<char>, k: usize, word: bool) -> (r: usize)
    ensures
        r == back_while(chars@, k as int, word),
        r <= k,
{
    let mut i = k;
    while i > 0
        invariant
            i <= k,
            back_while(chars@, i as int, word) == back_while(chars@, k as int, word),
        decreases i,
    {
        let w = if i - 1 < chars.len() { is_word_char(chars[i - 1]) } else { false };
        if w != word {
            return i;
        }
        i = i - 1;
    }
    i
}

/// Executable `fwd_while`.
pub(crate) fn scan_fwd(chars: &Vec<char>, k: usize, limit: usize, word: bool) -> (r: usize)
    ensures
        r == fwd_while(chars@, k as int, limit as int, word),
        r >= k,
        k <= limit ==> r <= limit,
        k >= limit ==> r == k,
{
    let mut i = k;
    while i < limit
        invariant
            k <= limit ==> i <= limit,
            k <= i,
            fwd_while(chars@, i as int, limit as int, word) == fwd_while(chars@, k as int, limit as int, word),
        decreases limit - i,
    {
        let w = if i < chars.len() { is_word_char(chars[i]) } else { false };
        if w != word {
            return i;
        }
        i = i + 1;
    }
    i
}

/// Delete `l[from..to]` from line `idx`, recording it as one word deletion
/// at column `col`; the cursor goes to `cursor_col`.
fn delete_word_range(state: &mut FileViewerState, lines: &mut Vec<String>, idx: usize, col: usize, from: usize, to: usize, forward: bool, cursor_col: usize, desired: usize)
    requires
        idx < old(lines)@.len(),
        from <= to <= old(lines)@[idx as int]@.len(),
    ensures
        ({
            let d = doc(old(lines)@);
            let l = d[idx as int];
            let e = final(state).undo_history.edits@.last();
            &&& doc(final(lines)@) == d.update(idx as int, l.take(from as int) + l.skip(to as int))
            &&& (e matches Edit::DeleteWord { line, col: c, text, forward: f } && line == idx && c == col
                && text@ == l.subrange(from as int, to as int) && f == forward)
            &&& committed(*final(state), *old(state), final(lines)@, seq![e], old(state).top_line,
                old(state).cursor_line, cursor_col, desired, old(state).cursor_at_wrap_end, idx, cursor_col)
        }),
{
    let ghost d = doc(lines@);
    let ghost old_edits = undoable(state.undo_history);
    let n = lines[idx].unicode_len();
    let text = substring(&lines[idx], from, to);
    let head = substring(&lines[idx], 0, from);
    let tail = substring(&lines[idx], to, n);
    let new_line = concat_str(&head, &tail);
    lines.set(idx, new_line);
    assert(doc(lines@) =~= d.update(idx as int, d[idx as int].take(from as int) + d[idx as int].skip(to as int)));
    let top = state.top_line;
    let cl = state.cursor_line;
    let w = state.cursor_at_wrap_end;
    let ghost e = Edit::DeleteWord { line: idx, col, text, forward };
    commit_edit(state, lines, Edit::DeleteWord { line: idx, col, text, forward }, top, cl, cursor_col, desired, w, idx, cursor_col);
    proof {
        lemma_pushed_last(old_edits, e);
    }
}

/// Ctrl+Backspace: delete the word before the cursor (and the non-word
/// characters between it and the cursor) as one undoable step.  At the start
/// of a line this is Backspace.  Nothing happens past the last line.
pub fn delete_word_backward(state: &mut FileViewerState, lines: &mut Vec<String>) -> (deleted: bool)
    requires
        old(state).top_line + old(state).cursor_line <= usize::MAX,
    ensures
        ({
            let idx = old(state).spec_absolute_line();
            let col = old(state).cursor_col;
            let d = doc(old(lines)@);
            &&& !(0 <= idx < d.len()) ==> !deleted && *final(state) == *old(state) && final(lines)@ == old(lines)@
            &&& (0 <= idx < d.len() && col > 0) ==> ({
                let l = d[idx];
                let start = word_start_before(l, col as int);
                let stop = min_int(col as int, l.len() as int);
                let e = final(state).undo_history.edits@.last();
                &&& deleted
                &&& doc(final(lines)@) == d.update(idx, l.take(start) + l.skip(stop))
                &&& (e matches Edit::DeleteWord { line, col: c, text, forward } && line == idx && c == start
                    && text@ == l.subrange(start, stop) && !forward)
                &&& committed(*final(state), *old(state), final(lines)@, seq![e], old(state).top_line,
                    old(state).cursor_line, start as usize, start as usize, old(state).cursor_at_wrap_end,
                    idx as usize, start as usize)
            })
        }),
        // At the start of a line the result is that of `delete_backward`.
{
    let idx = state.absolute_line();
    if idx >= lines.len() {
        return false;
    }
    let col = state.cursor_col;
    if col == 0 {
        return delete_backward(state, lines);
    }
    let chars = chars_of(lines[idx].as_str());
    let n = chars.len();
    let k1 = scan_back(&chars, col, false);
    let start = scan_back(&chars, k1, true);
    let stop = if col < n { col } else { n };
    proof {
        lemma_back_while_le_len(chars@, col as int, false);
        lemma_back_while_le_len(chars@, k1 as int, true);
    }
    delete_word_range(state, lines, idx, start, start, stop, false, start, start);
    true
}

/// Stepping left from past the end of a line stops at the line's end or
/// before it.
proof fn lemma_back_while_le_len(l: Seq<char>, k: int, word: bool)
    requires
        !word || k <= l.len(),
    ensures
        back_while(l, k, word) <= l.len(),
        back_while(l, k, word) <= k || k < 0,
    decreases k,
{
    if k > 0 && word_at(l, k - 1) == word {
        lemma_back_while_le_len(l, k - 1, word);
    }
}

/// Ctrl+Delete: delete from the cursor to the end of the next word as one
/// undoable step.  At (or past) the end of the line (in bytes) this is
/// Delete.  Nothing happens past the last line.
pub fn delete_word_forward(state: &mut FileViewerState, lines: &mut Vec<String>) -> (deleted: bool)
    requires
        old(state).top_line + old(state).cursor_line <= usize::MAX,
    ensures
        ({
            let idx = old(state).spec_absolute_line();
            let col = old(state).cursor_col;
            let d = doc(old(lines)@);
            &&& !(0 <= idx < d.len()) ==> !deleted && *final(state) == *old(state) && final(lines)@ == old(lines)@
            &&& (0 <= idx < d.len() && col < byte_len(d[idx])) ==> ({
                let l = d[idx];
                let from = min_int(col as int, l.len() as int);
                let to = min_int(word_end_after(l, col as int), l.len() as int);
                let e = final(state).undo_history.edits@.last();
                &&& deleted
                &&& doc(final(lines)@) == d.update(idx, l.take(from) + l.skip(to))
                &&& (e matches Edit::DeleteWord { line, col: c, text, forward } && line == idx && c == col
                    && text@ == l.subrange(from, to) && forward)
                &&& committed(*final(state), *old(state), final(lines)@, seq![e], old(state).top_line,
                    old(state).cursor_line, col, old(state).desired_cursor_col, old(state).cursor_at_wrap_end,
                    idx as usize, col)
            })
        }),
        // At (or past) the end of the line the result is that of `delete_forward`.
{
    let idx = state.absolute_line();
    if idx >= lines.len() {
        return false;
    }
    let col = state.cursor_col;
    let bytes = byte_length(&lines[idx]);
    if col >= bytes {
        return delete_forward(state, lines);
    }
    let chars = chars_of(lines[idx].as_str());
    let n = chars.len();
    let k1 = scan_fwd(&chars, col, bytes, false);
    let end = scan_fwd(&chars, k1, n, true);
    let from = if col < n { col } else { n };
    let to = if end < n { end } else { n };
    proof {
        assert(from <= to);
    }
    let dc = state.desired_cursor_col;
    delete_word_range(state, lines, idx, col, from, to, true, col, dc);
    true
}

// ---------------------------------------------------------------------------
// Undo right after an edit
// ---------------------------------------------------------------------------

/// Undoing the newest edit of `n`'s history applies in full and turns the
/// document `nl` back into `ol`.
pub open spec fn undo_restores(n: FileViewerState, nl: Seq<String>, ol: Seq<String>) -> bool {
    let h = n.undo_history;
    &&& 0 < h.current <= h.edits@.len()
    &&& undo_edit_ok(h.edits@[h.current - 1], doc(nl))
    &&& undo_edit_doc(h.edits@[h.current - 1], doc(nl)) == doc(ol)
}

/// An edit `e` recorded from `doc(ol)` that turned it into `doc(nl)` and was
/// committed as the newest edit is undone back to `doc(ol)`.
proof fn lemma_committed_undo(o: FileViewerState, n: FileViewerState, ol: Seq<String>, nl: Seq<String>, e: Edit,
    top: usize, cursor_line: usize, cursor_col: usize, desired: usize, wrap_end: bool, snap_line: usize, snap_col: usize)
    requires
        recorded_from(e, doc(ol)),
        redo_doc(e, doc(ol)) == Some(doc(nl)),
        committed(n, o, nl, seq![e], top, cursor_line, cursor_col, desired, wrap_end, snap_line, snap_col),
        !(e is CompositeEdit),
    ensures
        undo_restores(n, nl, ol),
{
    let h = n.undo_history;
    assert(h.edits@[h.current - 1] == e);
    lemma_undo_after_redo(e, doc(ol));
}

/// Undo after typing: right after `insert_char` typed a character, undoing
/// gives the document from before.
pub proof fn lemma_undo_insert_char(o: FileViewerState, n: FileViewerState, ol: Seq<String>, nl: Seq<String>, c: char)
    requires
        char_inserted(o, n, ol, nl, c, true),
    ensures
        undo_restores(n, nl, ol),
{
    let idx = o.spec_absolute_line();
    let col = o.cursor_col;
    let e = Edit::InsertChar { line: idx as usize, col, ch: c };
    lemma_committed_undo(o, n, ol, nl, e, o.top_line, o.cursor_line, (col + 1) as usize, (col + 1) as usize, false,
        idx as usize, (col + 1) as usize);
}

/// Undo after Backspace: right after `delete_backward` deleted a character
/// or joined two lines, undoing gives the document from before.
pub proof fn lemma_undo_delete_backward(o: FileViewerState, n: FileViewerState, ol: Seq<String>, nl: Seq<String>)
    requires
        backspace_done(o, n, ol, nl, true),
    ensures
        undo_restores(n, nl, ol),
{
    let idx = o.spec_absolute_line();
    let col = o.cursor_col;
    let d = doc(ol);
    let e = n.undo_history.edits@.last();
    if 0 <= idx < d.len() && 0 < col <= d[idx].len() {
        lemma_committed_undo(o, n, ol, nl, e, o.top_line, o.cursor_line, (col - 1) as usize, (col - 1) as usize,
            o.cursor_at_wrap_end, idx as usize, (col - 1) as usize);
    } else {
        let v = merge_up_view(o, nl, d[idx - 1].len() as int);
        lemma_committed_undo(o, n, ol, nl, e, v.0 as usize, v.1 as usize, v.2 as usize, v.2 as usize,
            o.cursor_at_wrap_end, v.3 as usize, d[idx - 1].len() as usize);
    }
}

/// Undo after Delete: right after `delete_forward` deleted a character or
/// joined two lines, undoing gives the document from before.
pub proof fn lemma_undo_delete_forward(o: FileViewerState, n: FileViewerState, ol: Seq<String>, nl: Seq<String>)
    requires
        delete_done(o, n, ol, nl, true),
    ensures
        undo_restores(n, nl, ol),
{
    let idx = o.spec_absolute_line();
    let col = o.cursor_col;
    let d = doc(ol);
    let e = n.undo_history.edits@.last();
    if 0 <= idx < d.len() && col < d[idx].len() {
        lemma_committed_undo(o, n, ol, nl, e, o.top_line, o.cursor_line, col, o.desired_cursor_col,
            o.cursor_at_wrap_end, idx as usize, col);
    } else {
        let c = clamped_col(o, nl, col as int);
        let desired = if c < col { c } else { o.desired_cursor_col as int };
        lemma_committed_undo(o, n, ol, nl, e, o.top_line, o.cursor_line, c as usize, desired as usize,
            o.cursor_at_wrap_end, idx as usize, col);
    }
}

/// Undo after Enter: right after `split_line` split a line, undoing gives
/// the document from before.
pub proof fn lemma_undo_split_line(o: FileViewerState, n: FileViewerState, ol: Seq<String>, nl: Seq<String>, visible_lines: usize)
    requires
        line_split(o, n, ol, nl, visible_lines, true),
    ensures
        undo_restores(n, nl, ol),
{
    let e = n.undo_history.edits@.last();
    let v = split_view(o, visible_lines);
    lemma_committed_undo(o, n, ol, nl, e, v.0 as usize, v.1 as usize, 0, 0, o.cursor_at_wrap_end, v.2 as usize, 0);
}

// ---------------------------------------------------------------------------
// What Ctrl+Delete deletes
// ---------------------------------------------------------------------------

/// A line takes at least one byte per character.
proof fn lemma_bytes_at_least_chars(l: Seq<char>, k: int)
    requires
        0 <= k <= l.len(),
    ensures
        vstd::utf8::encode_utf8(l.take(k)).len() >= k,
    decreases k,
{
    if k > 0 {
        lemma_bytes_at_least_chars(l, k - 1);
        crate::find::lemma_encode_take_step(l, k - 1);
        assert(vstd::utf8::encode_scalar(l[k - 1] as u32).len() >= 1);
    }
}

/// What a forward scan over (non-)word characters stops at.
proof fn lemma_fwd_while(l: Seq<char>, k: int, limit: int, word: bool)
    ensures
        k <= fwd_while(l, k, limit, word),
        k <= limit ==> fwd_while(l, k, limit, word) <= limit,
        forall|t: int| k <= t < fwd_while(l, k, limit, word) ==> word_at(l, t) == word,
        fwd_while(l, k, limit, word) >= limit || word_at(l, fwd_while(l, k, limit, word)) != word,
    decreases limit - k,
{
    if k < limit && word_at(l, k) == word {
        lemma_fwd_while(l, k + 1, limit, word);
    }
}

/// Ctrl+Delete deletes a run of separators and then one word: from a
/// column `col` before the line's end, the deleted range `col..end` (where
/// `end` is `word_end_after(l, col)`) holds no separator after a word
/// character; it stops at the line's end or at a separator; when a word
/// character follows the cursor on the line, the range ends within the line
/// and holds a word character, so a word is always deleted; and when none
/// follows, the range runs to the line's end.
pub proof fn lemma_delete_word_forward_range(l: Seq<char>, col: int)
    requires
        0 <= col < l.len(),
        vstd::utf8::encode_utf8(l).len() <= usize::MAX,
    ensures
        ({
            let end = word_end_after(l, col);
            &&& col <= end
            &&& forall|t: int, u: int| col <= u < t < end && t < l.len() && word_char(l[u]) ==> word_char(l[t])
            &&& end >= l.len() || !word_char(l[end])
            &&& (exists|t: int| col <= t < l.len() && word_char(l[t])) ==> {
                &&& end <= l.len()
                &&& exists|t: int| col <= t < end && word_char(l[t])
            }
            &&& (forall|t: int| col <= t < l.len() ==> !word_char(l[t])) ==> end >= l.len()
        }),
{
    let blen = byte_len(l) as int;
    lemma_bytes_at_least_chars(l, l.len() as int);
    assert(l.take(l.len() as int) =~= l);
    assert(blen >= l.len());
    let k1 = fwd_while(l, col, blen, false);
    lemma_fwd_while(l, col, blen, false);
    let end = fwd_while(l, k1, l.len() as int, true);
    lemma_fwd_while(l, k1, l.len() as int, true);
    assert(end == word_end_after(l, col));
    assert forall|t: int, u: int| col <= u < t < end && t < l.len() && word_char(l[u]) implies word_char(l[t]) by {
        if u < k1 {
            assert(word_at(l, u) == false);
        }
        assert(k1 <= u);
        assert(word_at(l, t));
    }
    if exists|t: int| col <= t < l.len() && word_char(l[t]) {
        let t0 = choose|t: int| col <= t < l.len() && word_char(l[t]);
        if k1 > t0 {
            assert(word_at(l, t0) == false);
        }
        assert(k1 <= t0);
        assert(word_at(l, k1));
        assert(k1 < l.len());
        assert(col <= k1 < end && word_char(l[k1]));
    }
    if forall|t: int| col <= t < l.len() ==> !word_char(l[t]) {
        if k1 < blen {
            assert(word_at(l, k1));
        }
    }
}

/// What a backward scan over (non-)word characters stops at.
proof fn lemma_back_while(l: Seq<char>, k: int, word: bool)
    ensures
        k >= 0 ==> 0 <= back_while(l, k, word) <= k,
        forall|t: int| back_while(l, k, word) <= t < k ==> word_at(l, t) == word,
        back_while(l, k, word) <= 0 || word_at(l, back_while(l, k, word) - 1) != word,
    decreases k,
{
    if k > 0 && word_at(l, k - 1) == word {
        lemma_back_while(l, k - 1, word);
    }
}

/// Ctrl+Backspace deletes one word and the separators after it: from a
/// column `col` within the line, the deleted range `start..col` (where
/// `start` is `word_start_before(l, col)`) holds no word character after a
/// separator; it starts at the line's start or after a separator; when a
/// word character comes before the cursor on the line, the range holds a
/// word character, so a word is always deleted; and when none comes before
/// it, the range starts at the line's start.
pub proof fn lemma_delete_word_backward_range(l: Seq<char>, col: int)
    requires
        0 < col <= l.len(),
    ensures
        ({
            let start = word_start_before(l, col);
            &&& 0 <= start <= col
            &&& forall|t: int, u: int| start <= t < u < col && !word_char(l[t]) ==> !word_char(l[u])
            &&& start == 0 || !word_char(l[start - 1])
            &&& (exists|t: int| 0 <= t < col && word_char(l[t])) ==> exists|t: int| start <= t < col && word_char(l[t])
            &&& (forall|t: int| 0 <= t < col ==> !word_char(l[t])) ==> start == 0
        }),
{
    let k1 = back_while(l, col, false);
    lemma_back_while(l, col, false);
    let start = back_while(l, k1, true);
    lemma_back_while(l, k1, true);
    assert forall|t: int, u: int| start <= t < u < col && !word_char(l[t]) implies !word_char(l[u]) by {
        if t < k1 {
            assert(word_at(l, t));
        }
        assert(word_at(l, u) == false);
    }
    if start > 0 {
        assert(word_at(l, start - 1) == false);
    }
    if exists|t: int| 0 <= t < col && word_char(l[t]) {
        let t0 = choose|t: int| 0 <= t < col && word_char(l[t]);
        if k1 <= t0 {
            assert(word_at(l, t0) == false);
        }
        assert(k1 > 0);
        assert(word_at(l, k1 - 1));
        assert(start <= k1 - 1 < col && word_char(l[k1 - 1]));
    }
    if forall|t: int| 0 <= t < col ==> !word_char(l[t]) {
        if k1 > 0 {
            assert(word_at(l, k1 - 1));
        }
    }
}

} // verus!

//! Cursor movement by words and paragraphs, and scrolling the view without
//! moving the cursor.
use vstd::prelude::*;
use crate::editor_state::{FileViewerState, only_view_changed, view_frame};
use crate::editing::{doc, fwd_while, sat_sub, scan_back, scan_fwd, word_start_before};
use crate::text::{byte_len, byte_length, char_is_whitespace, chars_of, is_white_space, lines_fit};

verus! {

// ---------------------------------------------------------------------------
// Words
// ---------------------------------------------------------------------------

/// Where moving a word right from column `col` of `l` lands: past the
/// non-word characters, then past the word (both bounded by the line's byte
/// length; positions past its characters count as non-word).
pub open spec fn word_right_target(l: Seq<char>, col: int) -> int {
    let blen = byte_len(l) as int;
    fwd_while(l, fwd_while(l, col, blen, false), blen, true)
}

/// (top line, cursor row, column) after moving a word left, or `None` when
/// the cursor does not move: past the last line, or at the start of the
/// first line.  At column 0 the cursor goes to the end of the previous line
/// (its byte length; the view scrolls up when the cursor is on the top row);
/// otherwise to the start of the previous word.
pub open spec fn word_left_move(s: FileViewerState, d: Seq<Seq<char>>) -> Option<(int, int, int)> {
    let abs = s.spec_absolute_line();
    if abs >= d.len() || (s.cursor_col == 0 && abs == 0) {
        None
    } else if s.cursor_col == 0 {
        let top = if s.cursor_line > 0 { s.top_line as int } else { sat_sub(s.top_line as int, 1) };
        let cl = if s.cursor_line > 0 { s.cursor_line - 1 } else { s.cursor_line as int };
        let new_abs = match s.saved_absolute_cursor { Some(l) => l as int, None => top + cl };
        let col = if new_abs < d.len() { byte_len(d[new_abs]) as int } else { s.cursor_col as int };
        Some((top, cl, col))
    } else {
        Some((s.top_line as int, s.cursor_line as int, word_start_before(d[abs], s.cursor_col as int)))
    }
}

/// (top line, cursor row, column) after moving a word right, or `None` when
/// the cursor does not move: past the last line, or at (or past) the end of
/// the last line.  At the end of a line (its byte length) the cursor goes to
/// the start of the next line (the view scrolls down when the cursor is on
/// the last row the document fills); otherwise past the next word.
pub open spec fn word_right_move(s: FileViewerState, d: Seq<Seq<char>>) -> Option<(int, int, int)> {
    let abs = s.spec_absolute_line();
    if abs >= d.len() {
        None
    } else if s.cursor_col >= byte_len(d[abs]) {
        if abs + 1 >= d.len() {
            None
        } else if s.cursor_line + 1 < sat_sub(d.len() as int, s.top_line as int) {
            Some((s.top_line as int, s.cursor_line + 1, 0))
        } else {
            Some((s.top_line + 1, s.cursor_line as int, 0))
        }
    } else {
        Some((s.top_line as int, s.cursor_line as int, word_right_target(d[abs], s.cursor_col as int)))
    }
}

/// `new` is `old` moved to `m` (top line, cursor row, column), or unchanged
/// when `m` is `None`.
pub open spec fn moved_to(new: FileViewerState, old: FileViewerState, m: Option<(int, int, int)>) -> bool {
    &&& only_view_changed(new, old)
    &&& match m {
        Some((top, cl, col)) => new.top_line == top && new.cursor_line == cl && new.cursor_col == col,
        None => new.top_line == old.top_line && new.cursor_line == old.cursor_line && new.cursor_col == old.cursor_col,
    }
}

/// Computes `word_left_move`.
fn word_left_target(state: &FileViewerState, lines: &[String]) -> (r: Option<(usize, usize, usize)>)
    requires
        state.top_line + state.cursor_line <= usize::MAX,
    ensures
        match (r, word_left_move(*state, doc(lines@))) {
            (Some(a), Some(b)) => a.0 == b.0 && a.1 == b.1 && a.2 == b.2,
            (None, None) => true,
            _ => false,
        },
{
    let abs = state.absolute_line();
    if abs >= lines.len() {
        return None;
    }
    if state.cursor_col == 0 {
        if abs == 0 {
            return None;
        }
        let (top, cl) = if state.cursor_line > 0 {
            (state.top_line, state.cursor_line - 1)
        } else {
            (if state.top_line > 0 { state.top_line - 1 } else { 0 }, state.cursor_line)
        };
        let new_abs = match state.saved_absolute_cursor {
            Some(l) => l,
            None => top + cl,
        };
        let col = if new_abs < lines.len() { byte_length(lines[new_abs].as_str()) } else { state.cursor_col };
        proof {
            if new_abs < lines@.len() {
                assert(doc(lines@)[new_abs as int] == lines@[new_abs as int]@);
            }
        }
        return Some((top, cl, col));
    }
    let chars = chars_of(lines[abs].as_str());
    let i = scan_back(&chars, state.cursor_col, false);
    let j = scan_back(&chars, i, true);
    assert(doc(lines@)[abs as int] == lines@[abs as int]@);
    Some((state.top_line, state.cursor_line, j))
}

/// Computes `word_right_move`.
fn word_right_target_of(state: &FileViewerState, lines: &[String]) -> (r: Option<(usize, usize, usize)>)
    requires
        state.top_line + state.cursor_line < usize::MAX,
    ensures
        match (r, word_right_move(*state, doc(lines@))) {
            (Some(a), Some(b)) => a.0 == b.0 && a.1 == b.1 && a.2 == b.2,
            (None, None) => true,
            _ => false,
        },
{
    let abs = state.absolute_line();
    if abs >= lines.len() {
        return None;
    }
    let line = lines[abs].as_str();
    assert(doc(lines@)[abs as int] == line@);
    let len = byte_length(line);
    if state.cursor_col >= len {
        if abs + 1 >= lines.len() {
            return None;
        }
        let rows = if lines.len() >= state.top_line { lines.len() - state.top_line } else { 0 };
        if state.cursor_line + 1 < rows {
            return Some((state.top_line, state.cursor_line + 1, 0));
        } else {
            return Some((state.top_line + 1, state.cursor_line, 0));
        }
    }
    let chars = chars_of(line);
    let i = scan_fwd(&chars, state.cursor_col, len, false);
    let j = scan_fwd(&chars, i, len, true);
    Some((state.top_line, state.cursor_line, j))
}

/// Put the view and cursor at `m` (nothing when `None`).
fn move_view(state: &mut FileViewerState, m: Option<(usize, usize, usize)>)
    ensures
        only_view_changed(*final(state), *old(state)),
        match m {
            Some((top, cl, col)) => final(state).top_line == top && final(state).cursor_line == cl && final(state).cursor_col == col,
            None => final(state).top_line == old(state).top_line && final(state).cursor_line == old(state).cursor_line
                && final(state).cursor_col == old(state).cursor_col,
        },
{
    if let Some((top, cl, col)) = m {
        state.top_line = top;
        state.cursor_line = cl;
        state.cursor_col = col;
    }
}

/// Move the cursor to the start of the previous word (see `word_left_move`).
/// Returns whether it moved.
pub fn word_left(state: &mut FileViewerState, lines: &[String]) -> (moved: bool)
    requires
        old(state).top_line + old(state).cursor_line <= usize::MAX,
    ensures
        moved == word_left_move(*old(state), doc(lines@)) is Some,
        moved_to(*final(state), *old(state), word_left_move(*old(state), doc(lines@))),
{
    let m = word_left_target(state, lines);
    move_view(state, m);
    m.is_some()
}

/// Move the cursor past the next word (see `word_right_move`).  Returns
/// whether it moved.
pub fn word_right(state: &mut FileViewerState, lines: &[String]) -> (moved: bool)
    requires
        old(state).top_line + old(state).cursor_line < usize::MAX,
    ensures
        moved == word_right_move(*old(state), doc(lines@)) is Some,
        moved_to(*final(state), *old(state), word_right_move(*old(state), doc(lines@))),
{
    let m = word_right_target_of(state, lines);
    move_view(state, m);
    m.is_some()
}


// ---------------------------------------------------------------------------
// Paragraphs
// ---------------------------------------------------------------------------

/// A line holding only white space (or nothing).
pub open spec fn blank(l: Seq<char>) -> bool {
    forall|i: int| 0 <= i < l.len() ==> is_white_space(#[trigger] l[i])
}

/// Whether `s` holds only white space.
pub fn is_blank(s: &str) -> (b: bool)
    ensures
        b == blank(s@),
{
    let chars = chars_of(s);
    let mut i: usize = 0;
    while i < chars.len()
        invariant
            i <= chars@.len(),
            chars@ == s@,
            forall|k: int| 0 <= k < i ==> is_white_space(#[trigger] s@[k]),
        decreases chars@.len() - i,
    {
        if !char_is_whitespace(chars[i]) {
            return false;
        }
        i = i + 1;
    }
    true
}

/// Step up from line `k` while the line above exists and is (`want_blank`) /
/// is not blank.
pub open spec fn up_while(d: Seq<Seq<char>>, k: int, want_blank: bool) -> int
    decreases k,
{
    if k <= 0 || k - 1 >= d.len() || blank(d[k - 1]) != want_blank {
        k
    } else {
        up_while(d, k - 1, want_blank)
    }
}

/// Step down from line `k` while the line exists and is (`want_blank`) / is
/// not blank.
pub open spec fn down_while(d: Seq<Seq<char>>, k: int, want_blank: bool) -> int
    decreases d.len() - k,
{
    if k < 0 || k >= d.len() || blank(d[k]) != want_blank {
        k
    } else {
        down_while(d, k + 1, want_blank)
    }
}

/// Executable `up_while`.
fn scan_up(lines: &[String], k: usize, want_blank: bool) -> (r: usize)
    ensures
        r == up_while(doc(lines@), k as int, want_blank),
        r <= k,
{
    let mut i = k;
    while i > 0 && i - 1 < lines.len() && is_blank(lines[i - 1].as_str()) == want_blank
        invariant
            i <= k,
            up_while(doc(lines@), i as int, want_blank) == up_while(doc(lines@), k as int, want_blank),
        decreases i,
    {
        assert(doc(lines@)[i - 1] == lines@[i - 1]@);
        i = i - 1;
    }
    proof {
        if i > 0 && i - 1 < lines@.len() {
            assert(doc(lines@)[i - 1] == lines@[i - 1]@);
        }
    }
    i
}

/// Executable `down_while`.
fn scan_down(lines: &[String], k: usize, want_blank: bool) -> (r: usize)
    ensures
        r == down_while(doc(lines@), k as int, want_blank),
        r >= k,
        k <= lines@.len() ==> r <= lines@.len(),
{
    let mut i = k;
    while i < lines.len() && is_blank(lines[i].as_str()) == want_blank
        invariant
            i >= k,
            k <= lines@.len() ==> i <= lines@.len(),
            down_while(doc(lines@), i as int, want_blank) == down_while(doc(lines@), k as int, want_blank),
        decreases lines@.len() - i,
    {
        assert(doc(lines@)[i as int] == lines@[i as int]@);
        i = i + 1;
    }
    proof {
        if i < lines@.len() {
            assert(doc(lines@)[i as int] == lines@[i as int]@);
        }
    }
    i
}

/// (top line, cursor row) after moving up a paragraph from line `abs`: past
/// the non-blank lines above, then past the blank lines above those; the
/// view scrolls up when that line is above it.
pub open spec fn paragraph_up_view(s: FileViewerState, d: Seq<Seq<char>>, abs: int) -> (int, int) {
    let cur = up_while(d, up_while(d, abs, false), true);
    if cur < s.top_line { (cur, 0) } else { (s.top_line as int, cur - s.top_line) }
}

/// Put the cursor at the start of row `cl` with the view at `top` (nothing
/// when `None`); the remembered column becomes 0.
fn move_home(state: &mut FileViewerState, m: Option<(usize, usize)>)
    ensures
        view_frame(*final(state), *old(state)),
        final(state).saved_absolute_cursor == old(state).saved_absolute_cursor,
        final(state).saved_scroll_state == old(state).saved_scroll_state,
        match m {
            Some((top, cl)) => final(state).top_line == top && final(state).cursor_line == cl
                && final(state).cursor_col == 0 && final(state).desired_cursor_col == 0,
            None => *final(state) == *old(state),
        },
{
    if let Some((top, cl)) = m {
        state.top_line = top;
        state.cursor_line = cl;
        state.cursor_col = 0;
        state.desired_cursor_col = 0;
    }
}

/// Computes `paragraph_up_view` (`None` on the first line).
fn paragraph_up_target(state: &FileViewerState, lines: &[String]) -> (r: Option<(usize, usize)>)
    requires
        state.top_line + state.cursor_line <= usize::MAX,
    ensures
        ({
            let abs = state.spec_absolute_line();
            let v = paragraph_up_view(*state, doc(lines@), abs);
            match r {
                Some((top, cl)) => abs != 0 && top == v.0 && cl == v.1,
                None => abs == 0,
            }
        }),
{
    let abs = state.absolute_line();
    if abs == 0 {
        return None;
    }
    let a = scan_up(lines, abs, false);
    let cur = scan_up(lines, a, true);
    if cur < state.top_line { Some((cur, 0)) } else { Some((state.top_line, cur - state.top_line)) }
}

/// Move the cursor up a paragraph, to column 0 (see `paragraph_up_view`).
/// Returns whether it moved: not on the first line.
pub fn paragraph_up(state: &mut FileViewerState, lines: &[String]) -> (moved: bool)
    requires
        old(state).top_line + old(state).cursor_line <= usize::MAX,
    ensures
        ({
            let abs = old(state).spec_absolute_line();
            let v = paragraph_up_view(*old(state), doc(lines@), abs);
            &&& moved == (abs != 0)
            &&& view_frame(*final(state), *old(state))
            &&& final(state).saved_absolute_cursor == old(state).saved_absolute_cursor
            &&& final(state).saved_scroll_state == old(state).saved_scroll_state
            &&& moved ==> final(state).top_line == v.0 && final(state).cursor_line == v.1
                && final(state).cursor_col == 0 && final(state).desired_cursor_col == 0
            &&& !moved ==> *final(state) == *old(state)
        }),
{
    let m = paragraph_up_target(state, lines);
    move_home(state, m);
    m.is_some()
}

/// (top line, cursor row) after moving down a paragraph from line `abs`:
/// past the non-blank lines, then past the blank lines after them (at most to
/// the last line); when that line is below the `eff` visible rows the view
/// scrolls so that it sits half a screen down.
pub open spec fn paragraph_down_view(s: FileViewerState, d: Seq<Seq<char>>, abs: int, eff: int) -> (int, int) {
    let cur = down_while(d, down_while(d, abs, false), true);
    let target = if cur < d.len() - 1 { cur } else { d.len() - 1 };
    if target >= s.top_line + eff {
        let top = sat_sub(target, eff / 2);
        (top, sat_sub(target, top))
    } else {
        (s.top_line as int, sat_sub(target, s.top_line as int))
    }
}

/// Computes `paragraph_down_view` (`None` past the last line).
fn paragraph_down_target(state: &FileViewerState, lines: &[String], visible_lines: usize) -> (r: Option<(usize, usize)>)
    requires
        state.top_line + state.cursor_line <= usize::MAX,
        !state.spec_wrapping() ==> lines_fit(lines@, state.settings.tab_width),
    ensures
        ({
            let abs = state.spec_absolute_line();
            let eff = state.spec_effective_visible_lines(lines@, visible_lines);
            let v = paragraph_down_view(*state, doc(lines@), abs, eff as int);
            match r {
                Some((top, cl)) => abs < lines@.len() && top == v.0 && cl == v.1,
                None => abs >= lines@.len(),
            }
        }),
{
    let eff = state.effective_visible_lines(lines, visible_lines);
    let abs = state.absolute_line();
    if abs >= lines.len() {
        return None;
    }
    let a = scan_down(lines, abs, false);
    let cur = scan_down(lines, a, true);
    let last = lines.len() - 1;
    let target = if cur < last { cur } else { last };
    let top0 = state.top_line;
    if target >= top0 && target - top0 >= eff {
        let t = if target >= eff / 2 { target - eff / 2 } else { 0 };
        Some((t, if target >= t { target - t } else { 0 }))
    } else {
        Some((top0, if target >= top0 { target - top0 } else { 0 }))
    }
}

/// Move the cursor down a paragraph, to column 0 (see
/// `paragraph_down_view`; `visible_lines` rows are on screen).  Returns
/// whether it moved: not when the cursor is past the last line.
pub fn paragraph_down(state: &mut FileViewerState, lines: &[String], visible_lines: usize) -> (moved: bool)
    requires
        old(state).top_line + old(state).cursor_line <= usize::MAX,
        !old(state).spec_wrapping() ==> lines_fit(lines@, old(state).settings.tab_width),
    ensures
        ({
            let abs = old(state).spec_absolute_line();
            let eff = old(state).spec_effective_visible_lines(lines@, visible_lines);
            let v = paragraph_down_view(*old(state), doc(lines@), abs, eff as int);
            &&& moved == (abs < lines@.len())
            &&& view_frame(*final(state), *old(state))
            &&& final(state).saved_absolute_cursor == old(state).saved_absolute_cursor
            &&& final(state).saved_scroll_state == old(state).saved_scroll_state
            &&& moved ==> final(state).top_line == v.0 && final(state).cursor_line == v.1
                && final(state).cursor_col == 0 && final(state).desired_cursor_col == 0
            &&& !moved ==> *final(state) == *old(state)
        }),
{
    let m = paragraph_down_target(state, lines, visible_lines);
    move_home(state, m);
    m.is_some()
}

/// Index of the first character of `l` that is not white space (0 when
/// there is none), searching from `k`.
pub open spec fn first_non_blank_from(l: Seq<char>, k: int) -> int
    decreases l.len() - k,
{
    if k < 0 || k >= l.len() {
        0
    } else if !is_white_space(l[k]) {
        k
    } else {
        first_non_blank_from(l, k + 1)
    }
}

/// Index of the first character of `line` that is not white space; 0 when
/// there is none.
pub fn first_non_blank_char(line: &str) -> (r: usize)
    ensures
        r == first_non_blank_from(line@, 0),
{
    let chars = chars_of(line);
    let mut i: usize = 0;
    while i < chars.len()
        invariant
            i <= chars@.len(),
            chars@ == line@,
            first_non_blank_from(line@, i as int) == first_non_blank_from(line@, 0),
        decreases chars@.len() - i,
    {
        if !char_is_whitespace(chars[i]) {
            return i;
        }
        i = i + 1;
    }
    0
}

// ---------------------------------------------------------------------------
// Scrolling without moving the cursor
// ---------------------------------------------------------------------------

/// The view after scrolling by `delta` lines (not past the last line, not
/// above the first): (top line, cursor row, saved absolute cursor, saved
/// scroll state).  When the cursor's line leaves the `eff` visible rows, it
/// is remembered (with the view from before, unless one is remembered
/// already); when it stays on screen, the cursor row follows it and nothing
/// is remembered.
pub open spec fn scrolled_view(s: FileViewerState, len: int, eff: int, delta: int)
    -> (int, int, Option<usize>, Option<(usize, usize)>)
{
    let abs = s.spec_absolute_line();
    let top = if delta > 0 {
        let t = s.top_line + delta;
        let last = sat_sub(len, 1);
        if t < last { t } else { last }
    } else {
        sat_sub(s.top_line as int, -delta)
    };
    if abs < top || abs >= top + eff {
        let saved = match s.saved_scroll_state {
            None => Some((s.top_line, s.cursor_line)),
            Some(p) => Some(p),
        };
        (top, s.cursor_line as int, Some(abs as usize), saved)
    } else {
        (top, abs - top, None, None)
    }
}

/// Computes `scrolled_view`.
fn scrolled_view_of(state: &FileViewerState, lines: &[String], visible_lines: usize, delta: isize)
    -> (r: (usize, usize, Option<usize>, Option<(usize, usize)>))
    requires
        state.top_line + state.cursor_line <= usize::MAX,
        delta != isize::MIN,
        delta > 0 ==> state.top_line + delta <= usize::MAX,
        !state.spec_wrapping() ==> lines_fit(lines@, state.settings.tab_width),
    ensures
        ({
            let eff = state.spec_effective_visible_lines(lines@, visible_lines);
            let v = scrolled_view(*state, lines@.len() as int, eff as int, delta as int);
            r.0 == v.0 && r.1 == v.1 && r.2 == v.2 && r.3 == v.3
        }),
{
    let eff = state.effective_visible_lines(lines, visible_lines);
    let abs = state.absolute_line();
    let top = if delta > 0 {
        let t = state.top_line + (delta as usize);
        let last = if lines.len() >= 1 { lines.len() - 1 } else { 0 };
        if t < last { t } else { last }
    } else {
        let back = (0 - delta) as usize;
        if state.top_line >= back { state.top_line - back } else { 0 }
    };
    if abs < top || abs - top >= eff {
        let saved = match state.saved_scroll_state {
            None => Some((state.top_line, state.cursor_line)),
            Some(p) => Some(p),
        };
        (top, state.cursor_line, Some(abs), saved)
    } else {
        (top, abs - top, None, None)
    }
}

/// Scroll the view by `delta` lines without moving the cursor's position in
/// the document (see `scrolled_view`; `visible_lines` rows are on screen).
/// Returns whether the top line changed; a `delta` of 0 changes nothing.
pub fn scroll_without_cursor(state: &mut FileViewerState, lines: &[String], visible_lines: usize, delta: isize) -> (changed: bool)
    requires
        old(state).top_line + old(state).cursor_line <= usize::MAX,
        delta != isize::MIN,
        delta > 0 ==> old(state).top_line + delta <= usize::MAX,
        !old(state).spec_wrapping() ==> lines_fit(lines@, old(state).settings.tab_width),
    ensures
        delta == 0 ==> !changed && *final(state) == *old(state),
        delta != 0 ==> ({
            let eff = old(state).spec_effective_visible_lines(lines@, visible_lines);
            let v = scrolled_view(*old(state), lines@.len() as int, eff as int, delta as int);
            &&& view_frame(*final(state), *old(state))
            &&& final(state).cursor_col == old(state).cursor_col
            &&& final(state).desired_cursor_col == old(state).desired_cursor_col
            &&& final(state).top_line == v.0
            &&& final(state).cursor_line == v.1
            &&& final(state).saved_absolute_cursor == v.2
            &&& final(state).saved_scroll_state == v.3
            &&& changed == (v.0 != old(state).top_line)
        }),
{
    if delta == 0 {
        return false;
    }
    let old_top = state.top_line;
    let (top, cl, saved_abs, saved_scroll) = scrolled_view_of(state, lines, visible_lines, delta);
    state.top_line = top;
    state.cursor_line = cl;
    state.saved_absolute_cursor = saved_abs;
    state.saved_scroll_state = saved_scroll;
    top != old_top
}

} // verus!

//! Moving the cursor up and down by one visual line: within a wrapped line,
//! to the neighbouring logical line, or to the neighbouring line a filter
//! shows, keeping the remembered column.
use vstd::prelude::*;
use crate::coordinates::{
    calculate_text_width, lines_count_ok, sum_visual_lines, visual_lines_in, calculate_wrapped_lines_for_line, col_index_of, copy_lines_vec, gutter_width,
    lemma_col_index_unique, lines_measurable, text_area_width, visual_col_to_char_index, visual_width_up_to,
    wrapped_line_count,
};
use crate::editor_state::{FileViewerState, view_frame};
use crate::find::{filtered_lines, get_lines_with_matches_checked, increasing, lemma_filtered_in_document, set_of};
use crate::text::{byte_len, byte_length, lines_fit, prefix_width, text_fits};

verus! {

// ---------------------------------------------------------------------------
// Columns
// ---------------------------------------------------------------------------

/// Column that vertical movement aims for: the remembered column, or the
/// cursor's column when none is remembered yet.
pub open spec fn aimed_col(s: FileViewerState) -> int {
    if s.desired_cursor_col == 0 && s.cursor_col > 0 {
        s.cursor_col as int
    } else {
        s.desired_cursor_col as int
    }
}

/// Column `d`, but no further than the byte length of `l`.
pub open spec fn clamp_to_line(d: int, l: Seq<char>) -> int {
    if d < byte_len(l) { d } else { byte_len(l) as int }
}

/// Display column of character index `c` of `l` (the whole line's width
/// when `c` is past its end).
pub open spec fn col_width(l: Seq<char>, c: int, tab: int) -> int {
    prefix_width(l, if c < l.len() { c as nat } else { l.len() }, tab)
}

/// Character index on the last of the `nw` wrap segments (each `tw` columns)
/// of `l` for aimed column `d`: the aimed display column when it lies on
/// that segment, otherwise the same offset within the segment.
pub open spec fn last_segment_col(l: Seq<char>, d: int, nw: int, tw: int, tab: int) -> int {
    let base = (if nw >= 1 { nw - 1 } else { 0 }) * tw;
    let dvc = col_width(l, clamp_to_line(d, l), tab);
    col_index_of(l, if dvc >= base { dvc } else { base + dvc % tw }, tab)
}

/// Visual lines that line `i` takes with wrapping on.
pub open spec fn wraps_of(lines: Seq<String>, i: int, tw: int, tab: usize) -> int {
    wrapped_line_count(lines, i, tw as u16, tab, true) as int
}

/// Text width of the view (terminal width minus gutter and scrollbar).
pub open spec fn view_text_width(s: FileViewerState) -> int {
    text_area_width(s.term_width, gutter_width(s.settings.appearance.line_number_digits))
}

// ---------------------------------------------------------------------------
// Lines a filter shows
// ---------------------------------------------------------------------------

/// Whether a filter limits the lines shown.
pub open spec fn filter_on(s: FileViewerState) -> bool {
    s.filter_active && s.last_search_pattern is Some
}

/// The lines the filter shows (`None` where the search cannot be done).
pub open spec fn shown_lines(s: FileViewerState, lines: Seq<String>) -> Option<Set<usize>> {
    filtered_lines(lines, s.last_search_pattern->0@, s.find_regex_mode, s.find_scope,
        s.filter_context_before, s.filter_context_after)
}

/// `x` is the last line of `shown` above line `abs`.
pub open spec fn is_last_before(shown: Set<usize>, abs: int, x: usize) -> bool {
    &&& shown.contains(x)
    &&& x < abs
    &&& forall|y: usize| shown.contains(y) && y < abs ==> y <= x
}

/// `x` is the first line of `shown` below line `abs`.
pub open spec fn is_first_after(shown: Set<usize>, abs: int, x: usize) -> bool {
    &&& shown.contains(x)
    &&& x > abs
    &&& forall|y: usize| shown.contains(y) && y > abs ==> x <= y
}

/// The last shown line above `abs`, if any.
pub open spec fn shown_before(shown: Option<Set<usize>>, abs: int) -> Option<int> {
    match shown {
        Some(set) => if exists|x: usize| is_last_before(set, abs, x) {
            Some((choose|x: usize| is_last_before(set, abs, x)) as int)
        } else {
            None
        },
        None => None,
    }
}

/// The first shown line below `abs`, if any.
pub open spec fn shown_after(shown: Option<Set<usize>>, abs: int) -> Option<int> {
    match shown {
        Some(set) => if exists|x: usize| is_first_after(set, abs, x) {
            Some((choose|x: usize| is_first_after(set, abs, x)) as int)
        } else {
            None
        },
        None => None,
    }
}

/// `shown_before` is the line that is the last one above `abs`.
pub(crate) proof fn lemma_shown_before(set: Set<usize>, abs: int, x: usize)
    requires
        is_last_before(set, abs, x),
    ensures
        shown_before(Some(set), abs) == Some(x as int),
{
    let c = choose|y: usize| is_last_before(set, abs, y);
    assert(is_last_before(set, abs, c));
    assert(c == x);
}

/// `shown_after` is the line that is the first one below `abs`.
pub(crate) proof fn lemma_shown_after(set: Set<usize>, abs: int, x: usize)
    requires
        is_first_after(set, abs, x),
    ensures
        shown_after(Some(set), abs) == Some(x as int),
{
    let c = choose|y: usize| is_first_after(set, abs, y);
    assert(is_first_after(set, abs, c));
    assert(c == x);
}

/// The last entry of the increasing `v` that is below `abs`.
pub(crate) fn last_entry_before(v: &Vec<usize>, abs: usize) -> (r: Option<usize>)
    requires
        increasing(v@),
    ensures
        match r {
            Some(x) => is_last_before(set_of(v@), abs as int, x),
            None => forall|y: usize| set_of(v@).contains(y) ==> y >= abs,
        },
{
    let mut i: usize = v.len();
    while i > 0
        invariant
            i <= v@.len(),
            increasing(v@),
            forall|k: int| i <= k < v@.len() ==> v@[k] >= abs,
        decreases i,
    {
        if v[i - 1] < abs {
            let x = v[i - 1];
            proof {
                assert(set_of(v@).contains(x)) by { assert(v@[i - 1] == x); }
                assert forall|y: usize| set_of(v@).contains(y) && y < abs implies y <= x by {
                    let k = choose|k: int| 0 <= k < v@.len() && v@[k] == y;
                    if k > i - 1 {
                        assert(v@[k] >= abs);
                    }
                }
            }
            return Some(x);
        }
        i = i - 1;
    }
    proof {
        assert forall|y: usize| set_of(v@).contains(y) implies y >= abs by {
            let k = choose|k: int| 0 <= k < v@.len() && v@[k] == y;
            assert(v@[k] >= abs);
        }
    }
    None
}

/// The first entry of the increasing `v` that is beyond `abs`.
pub(crate) fn first_entry_after(v: &Vec<usize>, abs: usize) -> (r: Option<usize>)
    requires
        increasing(v@),
    ensures
        match r {
            Some(x) => is_first_after(set_of(v@), abs as int, x),
            None => forall|y: usize| set_of(v@).contains(y) ==> y <= abs,
        },
{
    let mut i: usize = 0;
    while i < v.len()
        invariant
            i <= v@.len(),
            increasing(v@),
            forall|k: int| 0 <= k < i ==> v@[k] <= abs,
        decreases v@.len() - i,
    {
        if v[i] > abs {
            let x = v[i];
            proof {
                assert(set_of(v@).contains(x)) by { assert(v@[i as int] == x); }
                assert forall|y: usize| set_of(v@).contains(y) && y > abs implies x <= y by {
                    let k = choose|k: int| 0 <= k < v@.len() && v@[k] == y;
                    if k < i {
                        assert(v@[k] <= abs);
                    }
                }
            }
            return Some(x);
        }
        i = i + 1;
    }
    proof {
        assert forall|y: usize| set_of(v@).contains(y) implies y <= abs by {
            let k = choose|k: int| 0 <= k < v@.len() && v@[k] == y;
            assert(v@[k] <= abs);
        }
    }
    None
}

/// The shown lines in increasing order, checked to lie in the document.
fn shown_line_list(state: &FileViewerState, lines: &[String]) -> (r: Option<Vec<usize>>)
    requires
        state.last_search_pattern is Some,
    ensures
        match r {
            Some(v) => shown_lines(*state, lines@) == Some(set_of(v@)) && increasing(v@)
                && forall|y: usize| set_of(v@).contains(y) ==> y < lines@.len(),
            None => shown_lines(*state, lines@) is None,
        },
{
    let pattern = match &state.last_search_pattern {
        Some(p) => p,
        None => return None,
    };
    let lv: Vec<String> = copy_lines_vec(lines);
    match get_lines_with_matches_checked(&lv, pattern.as_str(), state.find_regex_mode, state.find_scope,
        state.filter_context_before, state.filter_context_after) {
        Some(v) => {
            proof {
                lemma_filtered_in_document(lv@, pattern@, state.find_regex_mode, state.find_scope,
                    state.filter_context_before, state.filter_context_after, v@);
                assert forall|y: usize| set_of(v@).contains(y) implies y < lines@.len() by {
                    let k = choose|k: int| 0 <= k < v@.len() && v@[k] == y;
                }
            }
            Some(v)
        },
        None => None,
    }
}

/// Computes `shown_before(shown_lines(..), abs)`.
fn shown_line_before(state: &FileViewerState, lines: &[String], abs: usize) -> (r: Option<usize>)
    requires
        state.last_search_pattern is Some,
    ensures
        match r {
            Some(p) => shown_before(shown_lines(*state, lines@), abs as int) == Some(p as int) && p < lines@.len(),
            None => shown_before(shown_lines(*state, lines@), abs as int) is None,
        },
{
    let v = match shown_line_list(state, lines) {
        Some(v) => v,
        None => return None,
    };
    let r = last_entry_before(&v, abs);
    proof {
        let set = set_of(v@);
        match r {
            Some(x) => {
                lemma_shown_before(set, abs as int, x);
                assert(set.contains(x));
            },
            None => {
                assert forall|x: usize| !is_last_before(set, abs as int, x) by {
                    if set.contains(x) {
                        assert(x >= abs);
                    }
                }
            },
        }
    }
    r
}

/// Computes `shown_after(shown_lines(..), abs)`.
fn shown_line_after(state: &FileViewerState, lines: &[String], abs: usize) -> (r: Option<usize>)
    requires
        state.last_search_pattern is Some,
    ensures
        match r {
            Some(p) => shown_after(shown_lines(*state, lines@), abs as int) == Some(p as int) && p < lines@.len(),
            None => shown_after(shown_lines(*state, lines@), abs as int) is None,
        },
{
    let v = match shown_line_list(state, lines) {
        Some(v) => v,
        None => return None,
    };
    let r = first_entry_after(&v, abs);
    proof {
        let set = set_of(v@);
        match r {
            Some(x) => {
                lemma_shown_after(set, abs as int, x);
                assert(set.contains(x));
            },
            None => {
                assert forall|x: usize| !is_first_after(set, abs as int, x) by {
                    if set.contains(x) {
                        assert(x <= abs);
                    }
                }
            },
        }
    }
    r
}

// ---------------------------------------------------------------------------
// Column helpers
// ---------------------------------------------------------------------------

/// Computes `clamp_to_line`.
fn clamp_col(d: usize, line: &str) -> (r: usize)
    ensures
        r == clamp_to_line(d as int, line@),
{
    let n = byte_length(line);
    if d < n { d } else { n }
}

/// Computes `last_segment_col` for line `idx`.
fn last_segment_col_of(lines: &[String], idx: usize, d: usize, tw: usize, tab: usize) -> (r: usize)
    requires
        idx < lines@.len(),
        lines_measurable(lines@, tab),
        0 < tw <= 65535,
    ensures
        r == last_segment_col(lines@[idx as int]@, d as int, wraps_of(lines@, idx as int, tw as int, tab), tw as int, tab as int),
{
    let line = lines[idx].as_str();
    assert(text_fits(line@, tab));
    let nw = calculate_wrapped_lines_for_line(lines, idx, tw as u16, tab) as usize;
    let k: usize = if nw >= 1 { nw - 1 } else { 0 };
    assert(k * tw <= 65535 * 65535) by (nonlinear_arith)
        requires
            k <= 65535,
            tw <= 65535,
    ;
    let base = k * tw;
    let dc = clamp_col(d, line);
    let dvc = visual_width_up_to(line, dc, tab);
    let target = if dvc >= base { dvc } else { base + dvc % tw };
    let r = visual_col_to_char_index(line, target, tab);
    proof {
        lemma_col_index_unique(line@, target as int, tab as int, r as int);
    }
    r
}

/// `r` and `m` name the same move (or both none).
pub open spec fn same_move(r: Option<(usize, usize, usize)>, m: Option<(int, int, int)>) -> bool {
    match (r, m) {
        (Some(a), Some(b)) => a.0 == b.0 && a.1 == b.1 && a.2 == b.2,
        (None, None) => true,
        _ => false,
    }
}

// ---------------------------------------------------------------------------
// Up
// ---------------------------------------------------------------------------

/// Rows after moving the cursor up to shown line `p`: the view stays when
/// `p` is on screen, otherwise it scrolls up to put `p` on top.
pub open spec fn up_place(top: int, p: int) -> (int, int) {
    if p >= top { (top, p - top) } else { (p, 0) }
}

/// (top line, cursor row, column) after moving up one visual line, or
/// `None` when nothing moves (cursor past the last line, no text width, at
/// the top of the document, or no shown line above under a filter).
///
/// Without wrapping the cursor goes to the previous logical line (the
/// previous line the filter shows, scrolling to it when above the view),
/// at the aimed column clamped to that line's byte length; the view
/// scrolls up when the cursor is on the top row.  With wrapping the cursor
/// first moves up within its line (one text width back) when it is at least
/// a text width into the line; otherwise it goes to the last segment of the
/// previous (shown) line.
pub open spec fn up_move(s: FileViewerState, lines: Seq<String>) -> Option<(int, int, int)> {
    let abs = s.spec_absolute_line();
    let tw = view_text_width(s);
    let tab = s.settings.tab_width;
    let d = aimed_col(s);
    let top = s.top_line as int;
    let cl = s.cursor_line as int;
    if abs >= lines.len() || tw == 0 {
        None
    } else if !s.spec_wrapping() {
        if filter_on(s) {
            match shown_before(shown_lines(s, lines), abs) {
                Some(p) => Some((up_place(top, p).0, up_place(top, p).1, clamp_to_line(d, lines[p]@))),
                None => None,
            }
        } else if cl > 0 || top > 0 {
            let t = if cl > 0 { top } else { top - 1 };
            let c = if cl > 0 { cl - 1 } else { cl };
            let na = match s.saved_absolute_cursor { Some(l) => l as int, None => t + c };
            Some((t, c, clamp_to_line(d, lines[na]@)))
        } else {
            None
        }
    } else {
        let l = lines[abs]@;
        let vc = col_width(l, s.cursor_col as int, tab as int);
        if vc >= tw {
            Some((top, cl, col_index_of(l, vc - tw, tab as int)))
        } else if filter_on(s) {
            match shown_before(shown_lines(s, lines), abs) {
                Some(p) => Some((up_place(top, p).0, up_place(top, p).1,
                    last_segment_col(lines[p]@, d, wraps_of(lines, p, tw, tab), tw, tab as int))),
                None => None,
            }
        } else if cl > 0 {
            let na = match s.saved_absolute_cursor { Some(l) => l as int, None => top + cl - 1 };
            Some((top, cl - 1, if na < lines.len() {
                last_segment_col(lines[na]@, d, wraps_of(lines, na, tw, tab), tw, tab as int)
            } else {
                s.cursor_col as int
            }))
        } else if top > 0 {
            Some((top - 1, cl, if top - 1 < lines.len() {
                last_segment_col(lines[top - 1]@, d, wraps_of(lines, top - 1, tw, tab), tw, tab as int)
            } else {
                s.cursor_col as int
            }))
        } else {
            None
        }
    }
}

/// The aimed column as a value.
fn aimed_col_of(state: &FileViewerState) -> (r: usize)
    ensures
        r == aimed_col(*state),
{
    if state.desired_cursor_col == 0 && state.cursor_col > 0 { state.cursor_col } else { state.desired_cursor_col }
}

/// Computes `up_move`.
fn up_target(state: &FileViewerState, lines: &[String], visible_lines: usize) -> (r: Option<(usize, usize, usize)>)
    requires
        state.top_line + state.cursor_line <= usize::MAX,
        state.spec_wrapping() ==> lines_measurable(lines@, state.settings.tab_width),
    ensures
        same_move(r, up_move(*state, lines@)),
{
    let d = aimed_col_of(state);
    let abs = state.absolute_line();
    if abs >= lines.len() {
        return None;
    }
    let tw = calculate_text_width(state, lines, visible_lines) as usize;
    let tab = state.settings.tab_width;
    if tw == 0 {
        return None;
    }
    let filter = state.filter_active && state.last_search_pattern.is_some();
    let top = state.top_line;
    let cl = state.cursor_line;
    if !state.is_line_wrapping_enabled() {
        if filter {
            let p = match shown_line_before(state, lines, abs) {
                Some(p) => p,
                None => return None,
            };
            let (t, c) = if p >= top { (top, p - top) } else { (p, 0) };
            return Some((t, c, clamp_col(d, lines[p].as_str())));
        }
        if cl == 0 && top == 0 {
            return None;
        }
        let (t, c) = if cl > 0 { (top, cl - 1) } else { (top - 1, cl) };
        let na = match state.saved_absolute_cursor {
            Some(l) => l,
            None => t + c,
        };
        return Some((t, c, clamp_col(d, lines[na].as_str())));
    }
    let line = lines[abs].as_str();
    assert(text_fits(line@, tab));
    let vc = visual_width_up_to(line, state.cursor_col, tab);
    if vc >= tw {
        let col = visual_col_to_char_index(line, vc - tw, tab);
        proof {
            lemma_col_index_unique(line@, vc - tw, tab as int, col as int);
        }
        return Some((top, cl, col));
    }
    if filter {
        let p = match shown_line_before(state, lines, abs) {
            Some(p) => p,
            None => return None,
        };
        let (t, c) = if p >= top { (top, p - top) } else { (p, 0) };
        return Some((t, c, last_segment_col_of(lines, p, d, tw, tab)));
    }
    if cl > 0 {
        let na = match state.saved_absolute_cursor {
            Some(l) => l,
            None => top + cl - 1,
        };
        let col = if na < lines.len() { last_segment_col_of(lines, na, d, tw, tab) } else { state.cursor_col };
        return Some((top, cl - 1, col));
    }
    if top > 0 {
        let col = if top - 1 < lines.len() { last_segment_col_of(lines, top - 1, d, tw, tab) } else { state.cursor_col };
        return Some((top - 1, cl, col));
    }
    None
}

/// Remember column `d` and put the view and cursor at `m` (nothing more
/// when `None`).
fn place(state: &mut FileViewerState, d: usize, m: Option<(usize, usize, usize)>)
    ensures
        view_frame(*final(state), *old(state)),
        final(state).saved_absolute_cursor == old(state).saved_absolute_cursor,
        final(state).saved_scroll_state == old(state).saved_scroll_state,
        final(state).desired_cursor_col == d,
        match m {
            Some((top, cl, col)) => final(state).top_line == top && final(state).cursor_line == cl
                && final(state).cursor_col == col,
            None => final(state).top_line == old(state).top_line && final(state).cursor_line == old(state).cursor_line
                && final(state).cursor_col == old(state).cursor_col,
        },
{
    if let Some((top, cl, col)) = m {
        state.top_line = top;
        state.cursor_line = cl;
        state.cursor_col = col;
        state.desired_cursor_col = d;
    } else {
        state.desired_cursor_col = d;
    }
}

/// Move the cursor up one visual line (see `up_move`), remembering the
/// aimed column.
pub fn handle_up_navigation(state: &mut FileViewerState, lines: &[String], visible_lines: usize)
    requires
        old(state).top_line + old(state).cursor_line <= usize::MAX,
        old(state).spec_wrapping() ==> lines_measurable(lines@, old(state).settings.tab_width),
    ensures
        view_frame(*final(state), *old(state)),
        final(state).saved_absolute_cursor == old(state).saved_absolute_cursor,
        final(state).saved_scroll_state == old(state).saved_scroll_state,
        final(state).desired_cursor_col == aimed_col(*old(state)),
        match up_move(*old(state), lines@) {
            Some((top, cl, col)) => final(state).top_line == top && final(state).cursor_line == cl
                && final(state).cursor_col == col,
            None => final(state).top_line == old(state).top_line && final(state).cursor_line == old(state).cursor_line
                && final(state).cursor_col == old(state).cursor_col,
        },
{
    let m = up_target(state, lines, visible_lines);
    let d = aimed_col_of(state);
    place(state, d, m);
}


// ---------------------------------------------------------------------------
// Down
// ---------------------------------------------------------------------------

/// Rows after moving the cursor down to shown line `n` with `eff` rows
/// visible: the view stays when `n` fits on screen, otherwise it scrolls to
/// put `n` on the last row.
pub open spec fn down_place(top: int, n: int, eff: int) -> (int, int) {
    let ncl = if n >= top { n - top } else { 0 };
    if ncl >= eff {
        (if n >= eff - 1 { n - (eff - 1) } else { 0 }, eff - 1)
    } else {
        (top, ncl)
    }
}

/// (top line, cursor row, column) after moving down one visual line, or
/// `None` when nothing moves (cursor past the last line, no text width, on
/// the last line, or no shown line below under a filter).
///
/// Without wrapping the cursor goes to the next logical line (the next line
/// the filter shows), at the aimed column clamped to that line's byte
/// length; the view scrolls when the cursor would leave the visible rows.
/// With wrapping the cursor first moves down within its line (one text
/// width on) when a segment follows; from the last segment it goes to the
/// first segment of the next (shown) line, at the aimed column's offset
/// within a segment, and the view scrolls one line when the visual lines
/// from the top through the cursor's line leave no room for another.
pub open spec fn down_move(s: FileViewerState, lines: Seq<String>, visible_lines: usize) -> Option<(int, int, int)> {
    let abs = s.spec_absolute_line();
    let tw = view_text_width(s);
    let tab = s.settings.tab_width;
    let d = aimed_col(s);
    let top = s.top_line as int;
    let cl = s.cursor_line as int;
    let eff = s.spec_effective_visible_lines(lines, visible_lines);
    if abs >= lines.len() || tw == 0 {
        None
    } else if !s.spec_wrapping() {
        if filter_on(s) {
            match shown_after(shown_lines(s, lines), abs) {
                Some(n) => Some((down_place(top, n, eff).0, down_place(top, n, eff).1, clamp_to_line(d, lines[n]@))),
                None => None,
            }
        } else if abs + 1 < lines.len() {
            let t = if cl + 1 >= eff { top + 1 } else { top };
            let c = if cl + 1 >= eff { eff - 1 } else { cl + 1 };
            let na = match s.saved_absolute_cursor { Some(l) => l as int, None => t + c };
            Some((t, c, clamp_to_line(d, lines[na]@)))
        } else {
            None
        }
    } else {
        let l = lines[abs]@;
        let vc = col_width(l, s.cursor_col as int, tab as int);
        if vc / tw + 1 < wraps_of(lines, abs, tw, tab) {
            Some((top, cl, col_index_of(l, vc + tw, tab as int)))
        } else if filter_on(s) {
            match shown_after(shown_lines(s, lines), abs) {
                Some(n) => Some((down_place(top, n, eff).0, down_place(top, n, eff).1, clamp_to_line(d % tw, lines[n]@))),
                None => None,
            }
        } else if abs + 1 < lines.len() {
            let scroll = visual_lines_in(lines, top, abs + 1, tw as u16, tab, true) + 1 > eff;
            let t = if scroll { top + 1 } else { top };
            let c = if scroll { cl } else { cl + 1 };
            let na = match s.saved_absolute_cursor { Some(l) => l as int, None => t + c };
            Some((t, c, if na < lines.len() { clamp_to_line(d % tw, lines[na]@) } else { s.cursor_col as int }))
        } else {
            None
        }
    }
}

/// Computes `down_move`.
fn down_target(state: &FileViewerState, lines: &[String], visible_lines: usize) -> (r: Option<(usize, usize, usize)>)
    requires
        state.top_line + state.cursor_line < usize::MAX,
        !state.spec_wrapping() ==> lines_fit(lines@, state.settings.tab_width),
        state.spec_wrapping() ==> lines_measurable(lines@, state.settings.tab_width) && lines_count_ok(lines@),
        state.spec_effective_visible_lines(lines@, visible_lines) >= 1,
    ensures
        same_move(r, down_move(*state, lines@, visible_lines)),
{
    let d = aimed_col_of(state);
    let eff = state.effective_visible_lines(lines, visible_lines);
    let abs = state.absolute_line();
    if abs >= lines.len() {
        return None;
    }
    let tw = calculate_text_width(state, lines, visible_lines) as usize;
    let tab = state.settings.tab_width;
    if tw == 0 {
        return None;
    }
    let filter = state.filter_active && state.last_search_pattern.is_some();
    let top = state.top_line;
    let cl = state.cursor_line;
    let wrapping = state.is_line_wrapping_enabled();
    if wrapping {
        let line = lines[abs].as_str();
        assert(text_fits(line@, tab));
        assert(line@.len() * (tab + 3) <= usize::MAX - 65536);
        let vc = visual_width_up_to(line, state.cursor_col, tab);
        let nw = calculate_wrapped_lines_for_line(lines, abs, tw as u16, tab) as usize;
        if vc / tw + 1 < nw {
            let col = visual_col_to_char_index(line, vc + tw, tab);
            proof {
                lemma_col_index_unique(line@, vc + tw, tab as int, col as int);
            }
            return Some((top, cl, col));
        }
    }
    if filter {
        let n = match shown_line_after(state, lines, abs) {
            Some(n) => n,
            None => return None,
        };
        let ncl = if n >= top { n - top } else { 0 };
        let (t, c) = if ncl >= eff { (if n >= eff - 1 { n - (eff - 1) } else { 0 }, eff - 1) } else { (top, ncl) };
        let want = if wrapping { d % tw } else { d };
        return Some((t, c, clamp_col(want, lines[n].as_str())));
    }
    if abs + 1 >= lines.len() {
        return None;
    }
    if !wrapping {
        let (t, c) = if cl + 1 >= eff { (top + 1, eff - 1) } else { (top, cl + 1) };
        let na = match state.saved_absolute_cursor {
            Some(l) => l,
            None => t + c,
        };
        return Some((t, c, clamp_col(d, lines[na].as_str())));
    }
    let consumed = sum_visual_lines(lines, top, abs + 1, tw as u16, tab, true) + 1;
    let (t, c) = if consumed > eff { (top + 1, cl) } else { (top, cl + 1) };
    let na = match state.saved_absolute_cursor {
        Some(l) => l,
        None => t + c,
    };
    let col = if na < lines.len() { clamp_col(d % tw, lines[na].as_str()) } else { state.cursor_col };
    Some((t, c, col))
}

/// Move the cursor down one visual line (see `down_move`), remembering the
/// aimed column.
pub fn handle_down_navigation(state: &mut FileViewerState, lines: &[String], visible_lines: usize)
    requires
        old(state).top_line + old(state).cursor_line < usize::MAX,
        !old(state).spec_wrapping() ==> lines_fit(lines@, old(state).settings.tab_width),
        old(state).spec_wrapping() ==> lines_measurable(lines@, old(state).settings.tab_width) && lines_count_ok(lines@),
        old(state).spec_effective_visible_lines(lines@, visible_lines) >= 1,
    ensures
        view_frame(*final(state), *old(state)),
        final(state).saved_absolute_cursor == old(state).saved_absolute_cursor,
        final(state).saved_scroll_state == old(state).saved_scroll_state,
        final(state).desired_cursor_col == aimed_col(*old(state)),
        match down_move(*old(state), lines@, visible_lines) {
            Some((top, cl, col)) => final(state).top_line == top && final(state).cursor_line == cl
                && final(state).cursor_col == col,
            None => final(state).top_line == old(state).top_line && final(state).cursor_line == old(state).cursor_line
                && final(state).cursor_col == old(state).cursor_col,
        },
{
    let m = down_target(state, lines, visible_lines);
    let d = aimed_col_of(state);
    place(state, d, m);
}

} // verus!

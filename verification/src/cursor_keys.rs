//! Plain cursor keys: arrows, Home, End, Page Up and Page Down, after
//! bringing back a cursor that was scrolled off screen, and the horizontal
//! scroll that follows the cursor when lines do not wrap.
use vstd::prelude::*;
use crate::coordinates::{calculate_text_width, lines_count_ok, lines_measurable, visual_width_up_to};
use crate::editor_state::{FileViewerState, view_frame};
use crate::keys::KeyCode;
use crate::navigation::{first_non_blank_char, first_non_blank_from};
use crate::text::{byte_len, byte_length, text_fits};
use crate::vertical::{
    aimed_col, col_width, down_move, handle_down_navigation, handle_up_navigation, up_move, view_text_width,
};

verus! {

/// `a` and `b` agree on everything but the view, the cursor, the remembered
/// column, the saved off-screen cursor, the pending wrap warning and the
/// horizontal scroll.
#[verifier::opaque]
pub open spec fn nav_frame(a: FileViewerState, b: FileViewerState) -> bool {
    &&& a.cursor_blink_state == b.cursor_blink_state
    &&& a.last_blink_time == b.last_blink_time
    &&& a.needs_footer_redraw == b.needs_footer_redraw
    &&& a.term_width == b.term_width
    &&& a.settings == b.settings
    &&& a.mouse_dragging == b.mouse_dragging
    &&& a.drag_source_start == b.drag_source_start
    &&& a.drag_source_end == b.drag_source_end
    &&& a.drag_text == b.drag_text
    &&& a.dragging_selection_active == b.dragging_selection_active
    &&& a.drag_target == b.drag_target
    &&& a.drag_click_logical_pos == b.drag_click_logical_pos
    &&& a.find_active == b.find_active
    &&& a.find_regex_mode == b.find_regex_mode
    &&& a.filter_active == b.filter_active
    &&& a.filter_context_before == b.filter_context_before
    &&& a.filter_context_after == b.filter_context_after
    &&& a.find_pattern == b.find_pattern
    &&& a.find_history == b.find_history
    &&& a.find_history_index == b.find_history_index
    &&& a.last_search_pattern == b.last_search_pattern
    &&& a.search_wrapped == b.search_wrapped
    &&& a.find_scope == b.find_scope
    &&& a.search_hit_count == b.search_hit_count
    &&& a.search_current_hit == b.search_current_hit
    &&& a.line_wrapping_override == b.line_wrapping_override
    &&& a.is_read_only == b.is_read_only
    &&& a.markdown_rendered == b.markdown_rendered
    &&& a.rendered_lines == b.rendered_lines
    &&& a.rendered_selection_start == b.rendered_selection_start
    &&& a.rendered_selection_end == b.rendered_selection_end
    &&& a.rendered_mouse_dragging == b.rendered_mouse_dragging
    &&& a.status_message == b.status_message
    &&& a.find_prompt == b.find_prompt
    &&& a.goto_line_active == b.goto_line_active
    &&& a.goto_line_input == b.goto_line_input
    &&& a.goto_line_cursor_pos == b.goto_line_cursor_pos
    &&& a.goto_line_typing_started == b.goto_line_typing_started
    &&& a.undo_history == b.undo_history
    &&& a.cursor_at_wrap_end == b.cursor_at_wrap_end
    &&& a.selection_start == b.selection_start
    &&& a.selection_end == b.selection_end
    &&& a.selection_anchor == b.selection_anchor
    &&& a.block_selection == b.block_selection
    &&& a.multi_cursors == b.multi_cursors
    &&& a.needs_redraw == b.needs_redraw
    &&& a.modified == b.modified
}

/// A state that agrees with another outside the view also agrees with it
/// outside the view and the horizontal scroll.
proof fn lemma_view_frame_nav(a: FileViewerState, b: FileViewerState)
    requires
        view_frame(a, b),
    ensures
        nav_frame(a, b),
{
    reveal(nav_frame);
}

/// `nav_frame` is transitive.
proof fn lemma_nav_frame_trans(a: FileViewerState, b: FileViewerState, c: FileViewerState)
    requires
        nav_frame(a, b),
        nav_frame(b, c),
    ensures
        nav_frame(a, c),
{
    reveal(nav_frame);
}

// ---------------------------------------------------------------------------
// Bringing back an off-screen cursor
// ---------------------------------------------------------------------------

/// (top line, cursor row) for a cursor saved off screen at line `a`: the
/// saved scroll state when there is one, otherwise `a` in the middle of the
/// `eff` visible rows (as far as the top of the document allows).
pub open spec fn restored_rows(s: FileViewerState, eff: int) -> (int, int) {
    match s.saved_absolute_cursor {
        Some(a) => match s.saved_scroll_state {
            Some((t, c)) => (t as int, c as int),
            None => {
                let t = if a >= eff / 2 { a - eff / 2 } else { 0 };
                (t, a - t)
            },
        },
        None => (s.top_line as int, s.cursor_line as int),
    }
}

/// The state once an off-screen cursor is back on screen (unchanged when
/// the cursor is not off screen).
#[verifier::opaque]
pub open spec fn restored(s: FileViewerState, eff: int) -> FileViewerState {
    if s.saved_absolute_cursor is Some {
        FileViewerState {
            top_line: restored_rows(s, eff).0 as usize,
            cursor_line: restored_rows(s, eff).1 as usize,
            saved_absolute_cursor: None,
            saved_scroll_state: None,
            ..s
        }
    } else {
        s
    }
}

/// What bringing the cursor back changes: the view rows and the saved
/// off-screen cursor, nothing that lays out the text.
proof fn lemma_restored(s: FileViewerState, eff: int, lines: Seq<String>, visible: usize)
    requires
        eff >= 0,
    ensures
        ({
            let r = restored(s, eff);
            &&& r.saved_absolute_cursor is None
            &&& r.top_line == restored_rows(s, eff).0
            &&& r.cursor_line == restored_rows(s, eff).1
            &&& r.cursor_col == s.cursor_col
            &&& r.desired_cursor_col == s.desired_cursor_col
            &&& r.wrap_warning_pending == s.wrap_warning_pending
            &&& r.horizontal_scroll_offset == s.horizontal_scroll_offset
            &&& nav_frame(r, s)
            &&& r.spec_effective_visible_lines(lines, visible) == s.spec_effective_visible_lines(lines, visible)
            &&& r.spec_wrapping() == s.spec_wrapping()
            &&& view_text_width(r) == view_text_width(s)
            &&& same_layout(r, s)
        }),
{
    reveal(restored);
    reveal(nav_frame);
}

/// Computes `restored_rows`.
fn restored_rows_of(state: &FileViewerState, eff: usize) -> (r: (usize, usize))
    ensures
        r.0 == restored_rows(*state, eff as int).0,
        r.1 == restored_rows(*state, eff as int).1,
{
    match state.saved_absolute_cursor {
        Some(a) => match state.saved_scroll_state {
            Some((t, c)) => (t, c),
            None => {
                let t = if a >= eff / 2 { a - eff / 2 } else { 0 };
                (t, a - t)
            },
        },
        None => (state.top_line, state.cursor_line),
    }
}

/// Bring an off-screen cursor back (see `restored`).
fn restore_cursor(state: &mut FileViewerState, eff: usize)
    ensures
        *final(state) == restored(*old(state), eff as int),
{
    reveal(restored);
    if state.saved_absolute_cursor.is_some() {
        let (t, c) = restored_rows_of(state, eff);
        state.top_line = t;
        state.cursor_line = c;
        state.saved_absolute_cursor = None;
        state.saved_scroll_state = None;
    }
}

// ---------------------------------------------------------------------------
// One key
// ---------------------------------------------------------------------------

/// Column `col` pulled back to the byte length of line `a` when it is past
/// it (what follows a vertical move).
pub open spec fn fit_col(col: int, lines: Seq<String>, a: int) -> int {
    if 0 <= a < lines.len() && col > byte_len(lines[a]@) { byte_len(lines[a]@) as int } else { col }
}

/// (moved, top line, cursor row, column, remembered column) after key
/// `code` from state `r` (whose cursor is on screen), with `eff` rows
/// visible.
///
/// Up and Down move one visual line (`up_move`, `down_move`) and pull the
/// column back into the line.  Left and Right move one column, across line
/// ends to the end of the previous line or the start of the next (the view
/// scrolls when the cursor leaves the visible rows; columns are byte
/// lengths).  Home goes to the first non-blank character, or to column 0
/// when already there; End to the end of the line.  Page Down moves the view
/// down a screen (not past the last screenful) and keeps the cursor on a
/// line; Page Up moves the view up a screen.  Other keys do nothing.
#[verifier::opaque]
pub open spec fn key_step(r: FileViewerState, lines: Seq<String>, code: KeyCode, visible: usize, eff: int)
    -> (bool, int, int, int, int)
{
    let top = r.top_line as int;
    let cl = r.cursor_line as int;
    let col = r.cursor_col as int;
    let d = r.desired_cursor_col as int;
    let abs = top + cl;
    match code {
        KeyCode::Up => {
            let m = match up_move(r, lines) { Some(v) => v, None => (top, cl, col) };
            (true, m.0, m.1, fit_col(m.2, lines, m.0 + m.1), aimed_col(r))
        },
        KeyCode::Down => {
            let m = match down_move(r, lines, visible) { Some(v) => v, None => (top, cl, col) };
            (true, m.0, m.1, fit_col(m.2, lines, m.0 + m.1), aimed_col(r))
        },
        KeyCode::Left => {
            if col > 0 {
                (true, top, cl, col - 1, col - 1)
            } else if abs > 0 {
                let t = if cl > 0 { top } else { top - 1 };
                let c = if cl > 0 { cl - 1 } else { cl };
                if t + c < lines.len() {
                    (true, t, c, byte_len(lines[t + c]@) as int, byte_len(lines[t + c]@) as int)
                } else {
                    (true, t, c, col, d)
                }
            } else {
                (false, top, cl, col, d)
            }
        },
        KeyCode::Right => {
            if abs < lines.len() && col < byte_len(lines[abs]@) {
                (true, top, cl, col + 1, col + 1)
            } else if abs + 1 < lines.len() {
                if cl + 1 >= eff { (true, top + 1, eff - 1, 0, 0) } else { (true, top, cl + 1, 0, 0) }
            } else {
                (false, top, cl, col, d)
            }
        },
        KeyCode::Home => {
            if abs < lines.len() {
                let f = first_non_blank_from(lines[abs]@, 0);
                let n = if col == f && f != 0 { 0 } else { f };
                (true, top, cl, n, n)
            } else {
                (true, top, cl, 0, 0)
            }
        },
        KeyCode::End => {
            if abs < lines.len() {
                (true, top, cl, byte_len(lines[abs]@) as int, byte_len(lines[abs]@) as int)
            } else {
                (true, top, cl, col, d)
            }
        },
        KeyCode::PageDown => {
            let last = if lines.len() >= visible { lines.len() - visible } else { 0 };
            let nt = if top + visible < last { top + visible } else { last };
            let c = if nt + cl >= lines.len() { if lines.len() >= nt + 1 { lines.len() - (nt + 1) } else { 0 } } else { cl };
            (true, nt, c, col, d)
        },
        KeyCode::PageUp => (true, if top >= visible { top - visible } else { 0 }, cl, col, d),
        _ => (false, top, cl, col, d),
    }
}

/// Computes `key_step` for the keys other than Up and Down.
fn plain_key_step(state: &FileViewerState, lines: &[String], code: KeyCode, visible: usize, eff: usize)
    -> (r: (bool, usize, usize, usize, usize))
    requires
        code != KeyCode::Up && code != KeyCode::Down,
        state.top_line + state.cursor_line + visible < usize::MAX,
        eff >= 1,
    ensures
        ({
            let k = key_step(*state, lines@, code, visible, eff as int);
            r.0 == k.0 && r.1 == k.1 && r.2 == k.2 && r.3 == k.3 && r.4 == k.4
        }),
{
    reveal(key_step);
    let top = state.top_line;
    let cl = state.cursor_line;
    let col = state.cursor_col;
    let d = state.desired_cursor_col;
    let abs = top + cl;
    match code {
        KeyCode::Left => {
            if col > 0 {
                (true, top, cl, col - 1, col - 1)
            } else if abs > 0 {
                let (t, c) = if cl > 0 { (top, cl - 1) } else { (top - 1, cl) };
                if t + c < lines.len() {
                    let b = byte_length(lines[t + c].as_str());
                    (true, t, c, b, b)
                } else {
                    (true, t, c, col, d)
                }
            } else {
                (false, top, cl, col, d)
            }
        },
        KeyCode::Right => {
            if abs < lines.len() && col < byte_length(lines[abs].as_str()) {
                (true, top, cl, col + 1, col + 1)
            } else if abs + 1 < lines.len() {
                if cl + 1 >= eff { (true, top + 1, eff - 1, 0, 0) } else { (true, top, cl + 1, 0, 0) }
            } else {
                (false, top, cl, col, d)
            }
        },
        KeyCode::Home => {
            if abs < lines.len() {
                let f = first_non_blank_char(lines[abs].as_str());
                let n = if col == f && f != 0 { 0 } else { f };
                (true, top, cl, n, n)
            } else {
                (true, top, cl, 0, 0)
            }
        },
        KeyCode::End => {
            if abs < lines.len() {
                let b = byte_length(lines[abs].as_str());
                (true, top, cl, b, b)
            } else {
                (true, top, cl, col, d)
            }
        },
        KeyCode::PageDown => {
            let last = lines.len().saturating_sub(visible);
            let nt = if top + visible < last { top + visible } else { last };
            let c = if nt + cl >= lines.len() { lines.len().saturating_sub(nt + 1) } else { cl };
            (true, nt, c, col, d)
        },
        KeyCode::PageUp => (true, top.saturating_sub(visible), cl, col, d),
        _ => (false, top, cl, col, d),
    }
}

/// Put the view, cursor and remembered column at the given values.
fn place_cursor(state: &mut FileViewerState, top: usize, cl: usize, col: usize, d: usize)
    ensures
        view_frame(*final(state), *old(state)),
        final(state).saved_absolute_cursor == old(state).saved_absolute_cursor,
        final(state).saved_scroll_state == old(state).saved_scroll_state,
        final(state).top_line == top,
        final(state).cursor_line == cl,
        final(state).cursor_col == col,
        final(state).desired_cursor_col == d,
{
    state.top_line = top;
    state.cursor_line = cl;
    state.cursor_col = col;
    state.desired_cursor_col = d;
}

/// Pull the cursor column back to the byte length of its line.
fn fit_cursor_col(state: &mut FileViewerState, lines: &[String])
    ensures
        view_frame(*final(state), *old(state)),
        final(state).saved_absolute_cursor == old(state).saved_absolute_cursor,
        final(state).saved_scroll_state == old(state).saved_scroll_state,
        final(state).top_line == old(state).top_line,
        final(state).cursor_line == old(state).cursor_line,
        final(state).desired_cursor_col == old(state).desired_cursor_col,
        final(state).cursor_col == fit_col(old(state).cursor_col as int, lines@, old(state).top_line + old(state).cursor_line),
{
    let n = lines.len();
    if let Some(abs) = state.top_line.checked_add(state.cursor_line) {
        if abs < n {
            let len = byte_length(lines[abs].as_str());
            if state.cursor_col > len {
                state.cursor_col = len;
            }
        }
    }
}

// ---------------------------------------------------------------------------
// Horizontal scroll
// ---------------------------------------------------------------------------

/// `a` and `b` lay out text the same way and scroll it the same way.
pub open spec fn same_layout(a: FileViewerState, b: FileViewerState) -> bool {
    &&& a.horizontal_scroll_offset == b.horizontal_scroll_offset
    &&& a.term_width == b.term_width
    &&& a.settings == b.settings
    &&& a.line_wrapping_override == b.line_wrapping_override
}

/// Horizontal scroll once the cursor at (`top` + `cl`, `col`) has moved:
/// unchanged with wrapping or past the last line; otherwise moved just far
/// enough that the cursor's display column is within the text width.
#[verifier::opaque]
pub open spec fn settled_h_scroll(s: FileViewerState, lines: Seq<String>, top: int, cl: int, col: int) -> int {
    let abs = top + cl;
    let h = s.horizontal_scroll_offset as int;
    let tw = view_text_width(s);
    if s.spec_wrapping() || abs >= lines.len() {
        h
    } else {
        let vc = col_width(lines[abs]@, col, s.settings.tab_width as int);
        if vc < h {
            vc
        } else if vc >= h + tw {
            if vc >= tw - 1 { vc - (tw - 1) } else { 0 }
        } else {
            h
        }
    }
}

/// The horizontal scroll depends on the layout alone.
proof fn lemma_settled_same_layout(a: FileViewerState, b: FileViewerState, lines: Seq<String>, top: int, cl: int, col: int)
    requires
        same_layout(a, b),
    ensures
        settled_h_scroll(a, lines, top, cl, col) == settled_h_scroll(b, lines, top, cl, col),
{
    reveal(settled_h_scroll);
}

/// Computes `settled_h_scroll` for the cursor of `state`.
fn settled_h_scroll_of(state: &FileViewerState, lines: &[String], visible_lines: usize) -> (h: usize)
    requires
        lines_measurable(lines@, state.settings.tab_width),
        !state.spec_wrapping() ==> view_text_width(*state) >= 1,
        state.horizontal_scroll_offset <= usize::MAX - 65536,
    ensures
        h == settled_h_scroll(*state, lines@, state.top_line as int, state.cursor_line as int, state.cursor_col as int),
{
    reveal(settled_h_scroll);
    let h = state.horizontal_scroll_offset;
    if state.is_line_wrapping_enabled() {
        return h;
    }
    let n = lines.len();
    let abs = match state.top_line.checked_add(state.cursor_line) {
        Some(a) => a,
        None => n,
    };
    if abs >= n {
        return h;
    }
    let tw = calculate_text_width(state, lines, visible_lines) as usize;
    let line = lines[abs].as_str();
    assert(text_fits(line@, state.settings.tab_width));
    let vc = visual_width_up_to(line, state.cursor_col, state.settings.tab_width);
    if vc < h {
        vc
    } else if vc >= h + tw {
        vc.saturating_sub(tw - 1)
    } else {
        h
    }
}

/// After a move: drop the pending wrap warning and set the horizontal
/// scroll to `h`.
fn settle_after_move(state: &mut FileViewerState, h: usize)
    ensures
        nav_frame(*final(state), *old(state)),
        final(state).top_line == old(state).top_line,
        final(state).cursor_line == old(state).cursor_line,
        final(state).cursor_col == old(state).cursor_col,
        final(state).desired_cursor_col == old(state).desired_cursor_col,
        final(state).saved_absolute_cursor == old(state).saved_absolute_cursor,
        final(state).saved_scroll_state == old(state).saved_scroll_state,
        final(state).wrap_warning_pending is None,
        final(state).horizontal_scroll_offset == h,
{
    state.wrap_warning_pending = None;
    state.horizontal_scroll_offset = h;
    proof {
        reveal(nav_frame);
    }
}

// ---------------------------------------------------------------------------
// The key handler
// ---------------------------------------------------------------------------

/// Apply key `code` to a state whose cursor is on screen (see `key_step`).
fn apply_key(state: &mut FileViewerState, lines: &[String], code: KeyCode, visible_lines: usize, eff: usize) -> (moved: bool)
    requires
        old(state).saved_absolute_cursor is None,
        eff == old(state).spec_effective_visible_lines(lines@, visible_lines),
        eff >= 1,
        lines_measurable(lines@, old(state).settings.tab_width),
        lines_count_ok(lines@),
        old(state).top_line + old(state).cursor_line + visible_lines < usize::MAX,
    ensures
        view_frame(*final(state), *old(state)),
        final(state).saved_absolute_cursor == old(state).saved_absolute_cursor,
        final(state).saved_scroll_state == old(state).saved_scroll_state,
        key_step(*old(state), lines@, code, visible_lines, eff as int) == (moved, final(state).top_line as int,
            final(state).cursor_line as int, final(state).cursor_col as int, final(state).desired_cursor_col as int),
{
    proof {
        reveal(key_step);
    }
    match code {
        KeyCode::Up => {
            handle_up_navigation(state, lines, visible_lines);
            fit_cursor_col(state, lines);
            true
        },
        KeyCode::Down => {
            handle_down_navigation(state, lines, visible_lines);
            fit_cursor_col(state, lines);
            true
        },
        _ => {
            let (m, t, c, col, d) = plain_key_step(state, lines, code, visible_lines, eff);
            place_cursor(state, t, c, col, d);
            m
        },
    }
}

/// Handle a plain cursor key: bring an off-screen cursor back (see
/// `restored`), apply the key (see `key_step`) and, when the cursor moved,
/// drop the pending wrap warning and scroll horizontally to it (see
/// `settled_h_scroll`).  Returns whether the key moved the cursor.
pub fn handle_navigation(state: &mut FileViewerState, lines: &[String], code: KeyCode, visible_lines: usize) -> (moved: bool)
    requires
        lines_measurable(lines@, old(state).settings.tab_width),
        lines_count_ok(lines@),
        old(state).spec_effective_visible_lines(lines@, visible_lines) >= 1,
        restored_rows(*old(state), old(state).spec_effective_visible_lines(lines@, visible_lines)).0
            + restored_rows(*old(state), old(state).spec_effective_visible_lines(lines@, visible_lines)).1
            + visible_lines < usize::MAX,
        !old(state).spec_wrapping() ==> view_text_width(*old(state)) >= 1,
        old(state).horizontal_scroll_offset <= usize::MAX - 65536,
    ensures
        ({
            let eff = old(state).spec_effective_visible_lines(lines@, visible_lines);
            let r = restored(*old(state), eff);
            let k = key_step(r, lines@, code, visible_lines, eff);
            &&& moved == k.0
            &&& final(state).top_line == k.1
            &&& final(state).cursor_line == k.2
            &&& final(state).cursor_col == k.3
            &&& final(state).desired_cursor_col == k.4
            &&& final(state).saved_absolute_cursor == r.saved_absolute_cursor
            &&& final(state).saved_scroll_state == r.saved_scroll_state
            &&& final(state).wrap_warning_pending == (if k.0 { None } else { old(state).wrap_warning_pending })
            &&& final(state).horizontal_scroll_offset == (if k.0 {
                settled_h_scroll(*old(state), lines@, k.1, k.2, k.3)
            } else {
                old(state).horizontal_scroll_offset as int
            })
            &&& nav_frame(*final(state), *old(state))
        }),
{
    let ghost s0 = *state;
    let eff = state.effective_visible_lines(lines, visible_lines);
    proof {
        lemma_restored(s0, eff as int, lines@, visible_lines);
    }
    restore_cursor(state, eff);
    let ghost r = *state;
    let moved = apply_key(state, lines, code, visible_lines, eff);
    let ghost s2 = *state;
    assert(same_layout(s2, s0));
    proof {
        lemma_view_frame_nav(s2, r);
        lemma_nav_frame_trans(s2, r, s0);
    }
    if moved {
        let h = settled_h_scroll_of(state, lines, visible_lines);
        proof {
            lemma_settled_same_layout(s2, s0, lines@, s2.top_line as int, s2.cursor_line as int, s2.cursor_col as int);
        }
        settle_after_move(state, h);
        proof {
            lemma_nav_frame_trans(*state, s2, s0);
        }
    }
    moved
}

} // verus!

//! Alt+arrow scrolling of the view without moving the cursor: the cursor's
//! line is kept, and parked off screen when the view leaves it.
use vstd::prelude::*;
use crate::coordinates::{calculate_text_width, visual_width};
use crate::editor_state::{max_line_width, FileViewerState};
use crate::keys::KeyCode;
use crate::text::{lines_fit, text_fits};

verus! {

/// `n` is `o` with the view's top line at `top` and the cursor kept on its
/// line: parked (its line saved) when that line is above the view or at
/// least `visible` rows below its top, the cursor row then 0 above the view;
/// otherwise on screen at its row.
pub open spec fn scrolled_to(o: FileViewerState, n: FileViewerState, top: int, visible: int) -> bool {
    let abs = o.spec_absolute_line();
    let row = if abs < top { 0 } else { abs - top };
    let parked = abs < top || abs - top >= visible;
    n == (FileViewerState {
        top_line: top as usize,
        cursor_line: row as usize,
        saved_absolute_cursor: if parked { Some(abs as usize) } else { None },
        ..o
    })
}

/// The widest line's width less the text width (0 when it fits).
pub open spec fn max_h_scroll(o: FileViewerState, lines: Seq<String>) -> int {
    let w = max_line_width(lines, lines.len() as int, o.settings.tab_width as int);
    if w >= o.spec_text_width() { w - o.spec_text_width() } else { 0 }
}

/// `n` is `o` after Alt with an arrow key, and `r` tells whether the view
/// moved:
/// - Up: one line up, unless at the top;
/// - Down: one line down, unless the top line is the last line;
/// - Left (wrapping off): `horizontal_scroll_speed` columns left, not past
///   column 0;
/// - Right (wrapping off): that many columns right, not past where the
///   widest line's end meets the text area's right edge;
/// - anything else: nothing.
pub open spec fn viewport_scrolled(o: FileViewerState, n: FileViewerState, lines: Seq<String>, code: KeyCode, visible: int, r: bool) -> bool {
    let h = o.horizontal_scroll_offset as int;
    let speed = o.settings.horizontal_scroll_speed as int;
    let last = if lines.len() >= 1 { lines.len() - 1 } else { 0 };
    match code {
        KeyCode::Up => if o.top_line > 0 {
            r && scrolled_to(o, n, o.top_line - 1, visible)
        } else {
            !r && n == o
        },
        KeyCode::Down => if o.top_line < last {
            r && scrolled_to(o, n, o.top_line + 1, visible)
        } else {
            !r && n == o
        },
        KeyCode::Left => if !o.spec_wrapping() && h > 0 {
            r && n == (FileViewerState { horizontal_scroll_offset: (if h >= speed { h - speed } else { 0 }) as usize, ..o })
        } else {
            !r && n == o
        },
        KeyCode::Right => if !o.spec_wrapping() && h < max_h_scroll(o, lines) {
            let m = max_h_scroll(o, lines);
            r && n == (FileViewerState { horizontal_scroll_offset: (if h + speed <= m { h + speed } else { m }) as usize, ..o })
        } else {
            !r && n == o
        },
        _ => !r && n == o,
    }
}

/// Set the view's top line, the cursor row and the parked line.
fn set_view(state: &mut FileViewerState, top: usize, row: usize, saved: Option<usize>)
    ensures
        *final(state) == (FileViewerState { top_line: top, cursor_line: row, saved_absolute_cursor: saved, ..*old(state) }),
{
    state.top_line = top;
    state.cursor_line = row;
    state.saved_absolute_cursor = saved;
}

/// Move the view's top line to `top`, keeping the cursor's line (see
/// `scrolled_to`).
fn scroll_to(state: &mut FileViewerState, top: usize, visible: usize)
    requires
        old(state).top_line + old(state).cursor_line <= usize::MAX,
    ensures
        scrolled_to(*old(state), *final(state), top as int, visible as int),
{
    let abs = state.absolute_line();
    let row = if abs < top { 0 } else { abs - top };
    let parked = abs < top || abs - top >= visible;
    let saved = if parked { Some(abs) } else { None };
    set_view(state, top, row, saved);
}

/// Set the horizontal scroll.
fn set_h_scroll(state: &mut FileViewerState, h: usize)
    ensures
        *final(state) == (FileViewerState { horizontal_scroll_offset: h, ..*old(state) }),
{
    state.horizontal_scroll_offset = h;
}

/// The widest line's display width.
fn widest_line(lines: &[String], tab_width: usize) -> (w: usize)
    requires
        lines_fit(lines@, tab_width),
    ensures
        w == max_line_width(lines@, lines@.len() as int, tab_width as int),
{
    let mut max_width: usize = 0;
    let mut i: usize = 0;
    while i < lines.len()
        invariant
            i <= lines@.len(),
            lines_fit(lines@, tab_width),
            max_width == max_line_width(lines@, i as int, tab_width as int),
        decreases lines@.len() - i,
    {
        assert(text_fits(lines@[i as int]@, tab_width));
        let w = visual_width(lines[i].as_str(), tab_width);
        if w > max_width {
            max_width = w;
        }
        i = i + 1;
    }
    max_width
}

/// Alt+Up and Alt+Down (see `viewport_scrolled`).
fn scroll_vertically(state: &mut FileViewerState, lines: &[String], code: KeyCode, visible_lines: usize) -> (r: bool)
    requires
        code is Up || code is Down,
        old(state).top_line + old(state).cursor_line <= usize::MAX,
    ensures
        viewport_scrolled(*old(state), *final(state), lines@, code, visible_lines as int, r),
{
    if code == KeyCode::Up {
        if state.top_line > 0 {
            let top = state.top_line - 1;
            scroll_to(state, top, visible_lines);
            return true;
        }
        false
    } else {
        let last = if lines.len() >= 1 { lines.len() - 1 } else { 0 };
        if state.top_line < last {
            let top = state.top_line + 1;
            scroll_to(state, top, visible_lines);
            return true;
        }
        false
    }
}

/// Alt+Left and Alt+Right (see `viewport_scrolled`).
fn scroll_horizontally(state: &mut FileViewerState, lines: &[String], code: KeyCode, visible_lines: usize) -> (r: bool)
    requires
        code is Left || code is Right,
        !old(state).spec_wrapping() ==> lines_fit(lines@, old(state).settings.tab_width),
    ensures
        viewport_scrolled(*old(state), *final(state), lines@, code, visible_lines as int, r),
{
    let h = state.horizontal_scroll_offset;
    let speed = state.settings.horizontal_scroll_speed;
    if state.is_line_wrapping_enabled() {
        return false;
    }
    if code == KeyCode::Left {
        if h > 0 {
            set_h_scroll(state, if h >= speed { h - speed } else { 0 });
            return true;
        }
        false
    } else {
        let text_width = calculate_text_width(state, lines, visible_lines) as usize;
        let widest = widest_line(lines, state.settings.tab_width);
        let m = if widest >= text_width { widest - text_width } else { 0 };
        if h < m {
            set_h_scroll(state, if speed <= m - h { h + speed } else { m });
            return true;
        }
        false
    }
}

/// Alt with an arrow key: scroll the view without moving the cursor (see
/// `viewport_scrolled`).
pub fn handle_viewport_scroll(state: &mut FileViewerState, lines: &[String], code: KeyCode, visible_lines: usize) -> (r: bool)
    requires
        old(state).top_line + old(state).cursor_line <= usize::MAX,
        !old(state).spec_wrapping() ==> lines_fit(lines@, old(state).settings.tab_width),
    ensures
        viewport_scrolled(*old(state), *final(state), lines@, code, visible_lines as int, r),
{
    match code {
        KeyCode::Up | KeyCode::Down => scroll_vertically(state, lines, code, visible_lines),
        KeyCode::Left | KeyCode::Right => scroll_horizontally(state, lines, code, visible_lines),
        _ => false,
    }
}

} // verus!

//! Whole-document keys of the editor: select all, jump to the start or end
//! of the document, open the find prompt (or toggle filter mode), keep the
//! cursor on a shown line in filter mode, and open the go-to-line prompt.
use vstd::prelude::*;
use crate::editor_state::{FileViewerState, FindPrompt};
use crate::find_input::{moved_to_line, move_to_line, visible_target, visible_target_of};
use crate::text::string_push;

verus! {

// ---------------------------------------------------------------------------
// Selection helpers as values
// ---------------------------------------------------------------------------

/// `s` with a selection anchored at the cursor, unless one is anchored.
pub open spec fn selection_started(s: FileViewerState) -> FileViewerState {
    if s.selection_anchor is None {
        let p = s.spec_current_position();
        FileViewerState { selection_anchor: Some(p), selection_start: Some(p), selection_end: Some(p), ..s }
    } else {
        s
    }
}

/// `s` with the selection extended from its anchor to the cursor.
pub open spec fn selection_extended(s: FileViewerState) -> FileViewerState {
    let p = s.spec_current_position();
    match s.selection_anchor {
        Some(a) => {
            let r = FileViewerState::selection_from_anchor(a, p, s.block_selection);
            FileViewerState { selection_start: Some(r.0), selection_end: Some(r.1), needs_redraw: true, ..s }
        },
        None => FileViewerState { selection_end: Some(p), needs_redraw: true, ..s },
    }
}

/// `s` without a selection.
pub open spec fn selection_dropped(s: FileViewerState) -> FileViewerState {
    if s.selection_start is Some || s.selection_end is Some {
        FileViewerState {
            selection_start: None,
            selection_end: None,
            selection_anchor: None,
            block_selection: false,
            needs_redraw: true,
            ..s
        }
    } else {
        s
    }
}

// ---------------------------------------------------------------------------
// Select all
// ---------------------------------------------------------------------------

/// `n` is `o` after select all: the selection runs from the start of the
/// document to the end of its last line (nothing changes for no lines).
pub open spec fn all_selected(o: FileViewerState, n: FileViewerState, lines: Seq<String>) -> bool {
    if lines.len() == 0 {
        n == o
    } else {
        let last = lines.len() - 1;
        n == (FileViewerState {
            selection_start: Some((0usize, 0usize)),
            selection_end: Some((last as usize, lines[last]@.len() as usize)),
            needs_redraw: true,
            ..o
        })
    }
}

/// Select the whole document (see `all_selected`).
pub fn select_all(state: &mut FileViewerState, lines: &[String])
    ensures
        all_selected(*old(state), *final(state), lines@),
{
    if lines.len() > 0 {
        let last = lines.len() - 1;
        let col = lines[last].as_str().unicode_len();
        state.selection_start = Some((0, 0));
        state.selection_end = Some((last, col));
        state.needs_redraw = true;
    }
}

// ---------------------------------------------------------------------------
// Start and end of the document
// ---------------------------------------------------------------------------

/// `n` is `o` after the cursor jumps to `(top, row, col)` with the desired
/// column `desired`: with `extend` the selection is anchored before and extended after,
/// otherwise it is dropped; a redraw is requested.
pub open spec fn jumped(o: FileViewerState, n: FileViewerState, top: int, row: int, col: int, desired: int, extend: bool) -> bool {
    let s1 = if extend { selection_started(o) } else { o };
    let s2 = FileViewerState {
        top_line: top as usize,
        cursor_line: row as usize,
        cursor_col: col as usize,
        desired_cursor_col: desired as usize,
        ..s1
    };
    let s3 = if extend { selection_extended(s2) } else { selection_dropped(s2) };
    n == (FileViewerState { needs_redraw: true, ..s3 })
}

/// Put the cursor at `(top, row, col)` with the desired column `desired`.
fn set_position(state: &mut FileViewerState, top: usize, row: usize, col: usize, desired: usize)
    ensures
        *final(state) == (FileViewerState {
            top_line: top,
            cursor_line: row,
            cursor_col: col,
            desired_cursor_col: desired,
            ..*old(state)
        }),
{
    state.top_line = top;
    state.cursor_line = row;
    state.cursor_col = col;
    state.desired_cursor_col = desired;
}

/// The steps of a jump give `jumped`.
proof fn lemma_jump_steps(o: FileViewerState, s1: FileViewerState, s2: FileViewerState, s3: FileViewerState,
    n: FileViewerState, top: usize, row: usize, col: usize, desired: usize, extend: bool)
    requires
        s1 == (if extend { selection_started(o) } else { o }),
        s2 == (FileViewerState { top_line: top, cursor_line: row, cursor_col: col, desired_cursor_col: desired, ..s1 }),
        s3 == (if extend { selection_extended(s2) } else { selection_dropped(s2) }),
        n == (FileViewerState { needs_redraw: true, ..s3 }),
    ensures
        jumped(o, n, top as int, row as int, col as int, desired as int, extend),
{
}

/// Anchor the selection (see `selection_started`).
fn start_sel(state: &mut FileViewerState)
    requires
        old(state).top_line + old(state).cursor_line <= usize::MAX,
    ensures
        *final(state) == selection_started(*old(state)),
{
    state.start_selection();
}

/// Extend the selection (see `selection_extended`).
fn extend_sel(state: &mut FileViewerState)
    requires
        old(state).top_line + old(state).cursor_line <= usize::MAX,
    ensures
        *final(state) == selection_extended(*old(state)),
{
    state.update_selection();
}

/// Drop the selection (see `selection_dropped`).
fn drop_sel(state: &mut FileViewerState)
    ensures
        *final(state) == selection_dropped(*old(state)),
{
    state.clear_selection();
}

/// Jump, extending the selection (see `jumped`).
fn jump_extending(state: &mut FileViewerState, top: usize, row: usize, col: usize, desired: usize)
    requires
        old(state).top_line + old(state).cursor_line <= usize::MAX,
        top + row <= usize::MAX,
    ensures
        jumped(*old(state), *final(state), top as int, row as int, col as int, desired as int, true),
{
    let ghost o = *state;
    start_sel(state);
    let ghost s1 = *state;
    set_position(state, top, row, col, desired);
    let ghost s2 = *state;
    extend_sel(state);
    let ghost s3 = *state;
    set_redraw(state);
    proof {
        lemma_jump_steps(o, s1, s2, s3, *state, top, row, col, desired, true);
    }
}

/// Jump, dropping the selection (see `jumped`).
fn jump_dropping(state: &mut FileViewerState, top: usize, row: usize, col: usize, desired: usize)
    ensures
        jumped(*old(state), *final(state), top as int, row as int, col as int, desired as int, false),
{
    let ghost o = *state;
    set_position(state, top, row, col, desired);
    let ghost s2 = *state;
    drop_sel(state);
    let ghost s3 = *state;
    set_redraw(state);
    proof {
        lemma_jump_steps(o, o, s2, s3, *state, top, row, col, desired, false);
    }
}

/// Put the cursor at `(top, row, col)`, extending or dropping the selection
/// (see `jumped`).
fn jump_cursor(state: &mut FileViewerState, top: usize, row: usize, col: usize, desired: usize, extend: bool)
    requires
        old(state).top_line + old(state).cursor_line <= usize::MAX,
        top + row <= usize::MAX,
    ensures
        jumped(*old(state), *final(state), top as int, row as int, col as int, desired as int, extend),
{
    if extend {
        jump_extending(state, top, row, col, desired);
    } else {
        jump_dropping(state, top, row, col, desired);
    }
}

/// Ctrl+Home: the cursor goes to the start of the document (see `jumped`).
pub fn jump_to_document_start(state: &mut FileViewerState, extend: bool)
    requires
        old(state).top_line + old(state).cursor_line <= usize::MAX,
    ensures
        jumped(*old(state), *final(state), 0, 0, 0, 0, extend),
{
    jump_cursor(state, 0, 0, 0, 0, extend);
}

/// Where Ctrl+End puts the view and cursor, and the desired column: the
/// last line on screen (at the bottom of the last page when it is below the
/// first one), at its end; for no lines all stay.
pub open spec fn document_end(o: FileViewerState, lines: Seq<String>, visible: int) -> (int, int, int, int) {
    if lines.len() == 0 {
        (o.top_line as int, o.cursor_line as int, o.cursor_col as int, o.desired_cursor_col as int)
    } else {
        let last = lines.len() - 1;
        let top = if last < visible { 0 } else { last - (visible - 1) };
        (top, last - top, lines[last]@.len() as int, lines[last]@.len() as int)
    }
}

/// Ctrl+End: the cursor goes to the end of the document (see
/// `document_end`, `jumped`).
pub fn jump_to_document_end(state: &mut FileViewerState, lines: &[String], visible_lines: usize, extend: bool)
    requires
        old(state).top_line + old(state).cursor_line <= usize::MAX,
        lines@.len() > 0 ==> visible_lines > 0,
    ensures
        ({
            let e = document_end(*old(state), lines@, visible_lines as int);
            jumped(*old(state), *final(state), e.0, e.1, e.2, e.3, extend)
        }),
{
    if lines.len() == 0 {
        let (t, r, c, d) = (state.top_line, state.cursor_line, state.cursor_col, state.desired_cursor_col);
        jump_cursor(state, t, r, c, d, extend);
        return;
    }
    let last = lines.len() - 1;
    let top = if last < visible_lines { 0 } else { last - (visible_lines - 1) };
    let col = lines[last].as_str().unicode_len();
    jump_cursor(state, top, last - top, col, col, extend);
}

// ---------------------------------------------------------------------------
// Filter mode: the cursor on a shown line
// ---------------------------------------------------------------------------

/// `n` is `o` after the cursor is moved onto a shown line when filter mode
/// is on with an active search and its line is not shown (see
/// `visible_target`, `moved_to_line`); otherwise nothing changes.
#[verifier::opaque]
pub open spec fn kept_visible(o: FileViewerState, n: FileViewerState, lines: Seq<String>) -> bool {
    match o.last_search_pattern {
        Some(p) => if o.filter_active {
            match visible_target(o, lines, p@) {
                Some(t) => moved_to_line(o, n, lines, t),
                None => n == o,
            }
        } else {
            n == o
        },
        None => n == o,
    }
}

/// Move the cursor onto a shown line in filter mode (see `kept_visible`).
pub fn ensure_cursor_on_visible_line(state: &mut FileViewerState, lines: &[String])
    requires
        old(state).top_line + old(state).cursor_line <= usize::MAX,
    ensures
        kept_visible(*old(state), *final(state), lines@),
{
    proof {
        reveal(kept_visible);
    }
    if !state.filter_active {
        return;
    }
    let p = match &state.last_search_pattern {
        Some(p) => p.clone(),
        None => return,
    };
    match visible_target_of(state, lines, p.as_str()) {
        Some(t) => move_to_line(state, lines, t),
        None => {},
    }
}

// ---------------------------------------------------------------------------
// The find key
// ---------------------------------------------------------------------------

/// `n` is `o` after the find key outside the prompt's own handling:
/// - with the prompt open on a typed pattern, nothing happens;
/// - with the prompt closed and an active search, filter mode toggles (the
///   cursor moved onto a shown line when it turns on, see `kept_visible`);
/// - otherwise the prompt opens empty: the active search is saved (for
///   Esc), the search is limited to the selection when there is one, and
///   the prompt cursor and error are reset.
/// A redraw is requested except in the first case.
pub open spec fn find_key_done(o: FileViewerState, n: FileViewerState, lines: Seq<String>) -> bool {
    if o.find_active && o.find_pattern@.len() > 0 {
        n == o
    } else if !o.find_active && o.last_search_pattern is Some {
        filter_key_toggled(o, n, lines)
    } else {
        find_prompt_opened(o, n)
    }
}

/// `n` is `o` with filter mode toggled by the find key (see
/// `find_key_done`).
pub open spec fn filter_key_toggled(o: FileViewerState, n: FileViewerState, lines: Seq<String>) -> bool {
    if !o.filter_active {
        exists|k: FileViewerState|
            #[trigger] kept_visible(FileViewerState { filter_active: true, ..o }, k, lines)
                && n == (FileViewerState { needs_redraw: true, ..k })
    } else {
        n == (FileViewerState { filter_active: false, needs_redraw: true, ..o })
    }
}

/// `n` is `o` with the find prompt opened empty (see `find_key_done`).
pub open spec fn find_prompt_opened(o: FileViewerState, n: FileViewerState) -> bool {
    &&& n.find_pattern@.len() == 0
    &&& n == (FileViewerState {
        find_prompt: FindPrompt { saved_search_pattern: o.last_search_pattern, cursor_pos: 0, error: false, ..o.find_prompt },
        find_scope: o.spec_selection_range(),
        find_active: true,
        find_pattern: n.find_pattern,
        needs_redraw: true,
        ..o
    })
}

/// Open the find prompt empty (the third case of `find_key_done`).
fn open_find_prompt(state: &mut FileViewerState)
    ensures
        find_prompt_opened(*old(state), *final(state)),
{
    let saved = state.last_search_pattern.clone();
    let scope = state.selection_range();
    state.find_prompt.saved_search_pattern = saved;
    state.find_prompt.cursor_pos = 0;
    state.find_prompt.error = false;
    state.find_scope = scope;
    state.find_active = true;
    state.find_pattern = String::new();
    state.needs_redraw = true;
}

/// Turn filter mode on.
fn filter_on(state: &mut FileViewerState)
    ensures
        *final(state) == (FileViewerState { filter_active: true, ..*old(state) }),
{
    state.filter_active = true;
}

/// Turn filter mode off and request a redraw.
fn filter_off(state: &mut FileViewerState)
    ensures
        *final(state) == (FileViewerState { filter_active: false, needs_redraw: true, ..*old(state) }),
{
    state.filter_active = false;
    state.needs_redraw = true;
}

/// Request a redraw.
fn set_redraw(state: &mut FileViewerState)
    ensures
        *final(state) == (FileViewerState { needs_redraw: true, ..*old(state) }),
{
    state.needs_redraw = true;
}

/// Toggle filter mode (see `filter_key_toggled`).
fn toggle_filter_key(state: &mut FileViewerState, lines: &[String])
    requires
        old(state).top_line + old(state).cursor_line <= usize::MAX,
    ensures
        filter_key_toggled(*old(state), *final(state), lines@),
{
    if state.filter_active {
        filter_off(state);
    } else {
        let ghost o = *state;
        filter_on(state);
        ensure_cursor_on_visible_line(state, lines);
        let ghost k = *state;
        set_redraw(state);
        assert(kept_visible(FileViewerState { filter_active: true, ..o }, k, lines@)
            && *state == (FileViewerState { needs_redraw: true, ..k }));
    }
}

/// The find key (see `find_key_done`).
pub fn handle_find_key(state: &mut FileViewerState, lines: &[String])
    requires
        old(state).top_line + old(state).cursor_line <= usize::MAX,
    ensures
        find_key_done(*old(state), *final(state), lines@),
{
    if state.find_active && state.find_pattern.unicode_len() > 0 {
        return;
    }
    if !state.find_active && state.last_search_pattern.is_some() {
        toggle_filter_key(state, lines);
        return;
    }
    open_find_prompt(state);
}

// ---------------------------------------------------------------------------
// The go-to-line prompt
// ---------------------------------------------------------------------------

/// The decimal digit `d` (below ten) as a character.
pub open spec fn digit_char(d: int) -> char {
    if d == 0 { '0' } else if d == 1 { '1' } else if d == 2 { '2' } else if d == 3 { '3' } else if d == 4 { '4' }
    else if d == 5 { '5' } else if d == 6 { '6' } else if d == 7 { '7' } else if d == 8 { '8' } else { '9' }
}

/// `n` written in decimal, without leading zeros.
pub open spec fn decimal_text(n: nat) -> Seq<char>
    decreases n,
{
    if n < 10 {
        seq![digit_char(n as int)]
    } else {
        decimal_text(n / 10).push(digit_char((n % 10) as int))
    }
}

/// The character of the digit `d`.
fn digit(d: usize) -> (c: char)
    requires
        d < 10,
    ensures
        c == digit_char(d as int),
{
    if d == 0 { '0' } else if d == 1 { '1' } else if d == 2 { '2' } else if d == 3 { '3' } else if d == 4 { '4' }
    else if d == 5 { '5' } else if d == 6 { '6' } else if d == 7 { '7' } else if d == 8 { '8' } else { '9' }
}

/// `n` written in decimal (see `decimal_text`).
pub fn number_text(n: usize) -> (s: String)
    ensures
        s@ == decimal_text(n as nat),
    decreases n,
{
    if n < 10 {
        let mut s = String::new();
        string_push(&mut s, digit(n));
        s
    } else {
        let mut s = number_text(n / 10);
        string_push(&mut s, digit(n % 10));
        s
    }
}

/// `n` is `o` with the go-to-line prompt open, pre-filled with the cursor's
/// line number (counted from 1), its cursor at the end and typing not yet
/// started (the first typed digit replaces the text).
pub open spec fn goto_opened(o: FileViewerState, n: FileViewerState) -> bool {
    let text = decimal_text((o.spec_absolute_line() + 1) as nat);
    &&& n.goto_line_input@ == text
    &&& n == (FileViewerState {
        goto_line_active: true,
        goto_line_input: n.goto_line_input,
        goto_line_cursor_pos: text.len() as usize,
        goto_line_typing_started: false,
        needs_redraw: true,
        ..o
    })
}

/// Open the go-to-line prompt (see `goto_opened`).
pub fn open_goto_line(state: &mut FileViewerState)
    requires
        old(state).top_line + old(state).cursor_line <= usize::MAX,
        old(state).spec_absolute_line() < usize::MAX,
    ensures
        goto_opened(*old(state), *final(state)),
{
    let abs = state.absolute_line();
    let text = number_text(abs + 1);
    let len = text.unicode_len();
    state.goto_line_input = text;
    state.goto_line_cursor_pos = len;
    state.goto_line_typing_started = false;
    state.goto_line_active = true;
    state.needs_redraw = true;
}

} // verus!

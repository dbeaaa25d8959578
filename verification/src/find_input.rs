//! The find prompt: typing and editing the search pattern, stepping through
//! the search history, highlighting while typing, and confirming, filtering
//! or cancelling the search.
use vstd::prelude::*;
use crate::editor_state::{FileViewerState, FindPrompt};
use crate::find::{
    add_to_history, escape_at, filtered_lines, get_lines_with_matches_checked, history_after, multi_line_source,
    multiline_regex, pattern_is_multiline, pattern_to_regex, regex_compiles, set_of, single_line_source, texts,
};
use crate::find_step::{count_hits, hits_counted, lemma_hits_counted_frame};
use crate::keys::{KeyCode, KeyEvent};
use crate::search::search_hits;
use crate::text::{chars_of, string_push};
use crate::vertical::{first_entry_after, last_entry_before, lemma_shown_after, lemma_shown_before, shown_after, shown_before};

verus! {

// ---------------------------------------------------------------------------
// Frames
// ---------------------------------------------------------------------------

/// `a` and `b` agree on everything the find prompt never changes: all but
/// the prompt, the search results and status, the filter flag, the redraw
/// flag and the cursor and view.
#[verifier::opaque]
pub open spec fn input_frame(a: FileViewerState, b: FileViewerState) -> bool {
    &&& a.cursor_blink_state == b.cursor_blink_state
    &&& a.last_blink_time == b.last_blink_time
    &&& a.needs_footer_redraw == b.needs_footer_redraw
    &&& a.term_width == b.term_width
    &&& a.settings == b.settings
    &&& a.mouse_dragging == b.mouse_dragging
    &&& a.drag_source_start == b.drag_source_start
    &&& a.drag_source_end == b.drag_source_end
    &&& a.drag_text == b.drag_text
    &&& a.dragging_selection_active == b.dragging_selection_active
    &&& a.drag_target == b.drag_target
    &&& a.drag_click_logical_pos == b.drag_click_logical_pos
    &&& a.find_regex_mode == b.find_regex_mode
    &&& a.filter_context_before == b.filter_context_before
    &&& a.filter_context_after == b.filter_context_after
    &&& a.horizontal_scroll_offset == b.horizontal_scroll_offset
    &&& a.line_wrapping_override == b.line_wrapping_override
    &&& a.is_read_only == b.is_read_only
    &&& a.markdown_rendered == b.markdown_rendered
    &&& a.rendered_lines == b.rendered_lines
    &&& a.rendered_selection_start == b.rendered_selection_start
    &&& a.rendered_selection_end == b.rendered_selection_end
    &&& a.rendered_mouse_dragging == b.rendered_mouse_dragging
    &&& a.status_message == b.status_message
    &&& a.goto_line_active == b.goto_line_active
    &&& a.goto_line_input == b.goto_line_input
    &&& a.goto_line_cursor_pos == b.goto_line_cursor_pos
    &&& a.goto_line_typing_started == b.goto_line_typing_started
    &&& a.undo_history == b.undo_history
    &&& a.cursor_at_wrap_end == b.cursor_at_wrap_end
    &&& a.selection_start == b.selection_start
    &&& a.selection_end == b.selection_end
    &&& a.selection_anchor == b.selection_anchor
    &&& a.block_selection == b.block_selection
    &&& a.multi_cursors == b.multi_cursors
    &&& a.modified == b.modified
    &&& a.saved_absolute_cursor == b.saved_absolute_cursor
    &&& a.saved_scroll_state == b.saved_scroll_state
}

/// `input_frame` is transitive.
proof fn lemma_input_frame_trans(a: FileViewerState, b: FileViewerState, c: FileViewerState)
    requires
        input_frame(a, b),
        input_frame(b, c),
    ensures
        input_frame(a, c),
{
    reveal(input_frame);
}

/// Counting hits stays within the frame.
proof fn lemma_hits_counted_input(o: FileViewerState, n: FileViewerState, lines: Seq<String>, done: bool)
    requires
        hits_counted(o, n, lines, done),
    ensures
        input_frame(n, o),
        same_view(n, o),
        same_prompt(n, o),
        n.needs_redraw == o.needs_redraw,
        n.find_history == o.find_history,
        n.last_search_pattern == o.last_search_pattern,
        n.search_wrapped == o.search_wrapped,
        n.wrap_warning_pending == o.wrap_warning_pending,
        n.find_scope == o.find_scope,
        n.filter_active == o.filter_active,
        n.saved_absolute_cursor == o.saved_absolute_cursor,
{
    reveal(input_frame);
}

/// The cursor and view are unchanged.
pub open spec fn same_view(a: FileViewerState, b: FileViewerState) -> bool {
    &&& a.top_line == b.top_line
    &&& a.cursor_line == b.cursor_line
    &&& a.cursor_col == b.cursor_col
    &&& a.desired_cursor_col == b.desired_cursor_col
}

/// The prompt (open flag, pattern, history position, prompt state) is
/// unchanged.
pub open spec fn same_prompt(a: FileViewerState, b: FileViewerState) -> bool {
    &&& a.find_active == b.find_active
    &&& a.find_pattern == b.find_pattern
    &&& a.find_history_index == b.find_history_index
    &&& a.find_prompt == b.find_prompt
}

/// The search results and status are unchanged.
pub open spec fn same_results(a: FileViewerState, b: FileViewerState) -> bool {
    &&& a.find_history == b.find_history
    &&& a.last_search_pattern == b.last_search_pattern
    &&& a.search_wrapped == b.search_wrapped
    &&& a.wrap_warning_pending == b.wrap_warning_pending
    &&& a.find_scope == b.find_scope
    &&& a.filter_active == b.filter_active
    &&& a.search_current_hit == b.search_current_hit
    &&& a.search_hit_count == b.search_hit_count
}

// ---------------------------------------------------------------------------
// Pattern checks and live highlighting
// ---------------------------------------------------------------------------

/// Whether the typed pattern compiles: as a multi-line search when it holds
/// a typed `\n`, otherwise as a single-line search in the given mode.
pub open spec fn pattern_valid(p: Seq<char>, regex_mode: bool) -> bool {
    if exists|i: int| escape_at(p, i) {
        regex_compiles(multi_line_source(p))
    } else {
        regex_compiles(single_line_source(p, regex_mode))
    }
}

/// Computes `pattern_valid`.
fn check_pattern(p: &str, regex_mode: bool) -> (b: bool)
    ensures
        b == pattern_valid(p@, regex_mode),
{
    if pattern_is_multiline(p) {
        multiline_regex(p).is_some()
    } else {
        pattern_to_regex(p, regex_mode).is_some()
    }
}

/// `n` is `o` with the highlights following the typed pattern: none for an
/// empty pattern (and no hits); the pattern itself when it compiles (the
/// search mode is remembered and the error cleared); unchanged otherwise.
pub open spec fn live_updated(o: FileViewerState, n: FileViewerState) -> bool {
    &&& input_frame(n, o)
    &&& same_view(n, o)
    &&& n.find_active == o.find_active && n.find_pattern == o.find_pattern && n.find_history_index == o.find_history_index
    &&& n.needs_redraw == o.needs_redraw
    &&& n.find_history == o.find_history && n.search_wrapped == o.search_wrapped
    &&& n.wrap_warning_pending == o.wrap_warning_pending && n.find_scope == o.find_scope && n.filter_active == o.filter_active
    &&& if o.find_pattern@.len() == 0 {
        n.last_search_pattern is None && n.search_current_hit == 0 && n.search_hit_count == 0 && n.find_prompt == o.find_prompt
    } else if pattern_valid(o.find_pattern@, o.find_regex_mode) {
        n.last_search_pattern == Some(o.find_pattern)
            && n.find_prompt == (FindPrompt { last_regex_mode: o.find_regex_mode, error: false, ..o.find_prompt })
            && n.search_current_hit == o.search_current_hit && n.search_hit_count == o.search_hit_count
    } else {
        n.last_search_pattern == o.last_search_pattern && n.find_prompt == o.find_prompt
            && n.search_current_hit == o.search_current_hit && n.search_hit_count == o.search_hit_count
    }
}

/// Make the highlights follow the typed pattern (see `live_updated`).
#[verifier::rlimit(60)]
pub fn update_live_highlights(state: &mut FileViewerState)
    ensures
        live_updated(*old(state), *final(state)),
{
    if state.find_pattern.unicode_len() == 0 {
        state.last_search_pattern = None;
        state.search_hit_count = 0;
        state.search_current_hit = 0;
    } else if check_pattern(state.find_pattern.as_str(), state.find_regex_mode) {
        state.last_search_pattern = Some(state.find_pattern.clone());
        state.find_prompt.last_regex_mode = state.find_regex_mode;
        state.find_prompt.error = false;
    }
    proof {
        reveal(input_frame);
    }
}

/// Set the redraw flag.
fn request_redraw(state: &mut FileViewerState)
    ensures
        redrawn(*old(state), *final(state)),
{
    state.needs_redraw = true;
    proof {
        reveal(input_frame);
    }
}

/// `n` is `o` with the redraw flag set.
pub open spec fn redrawn(o: FileViewerState, n: FileViewerState) -> bool {
    &&& input_frame(n, o)
    &&& same_view(n, o)
    &&& same_prompt(n, o)
    &&& same_results(n, o)
    &&& n.needs_redraw
}

/// `n` is `o` after the highlights follow the pattern, the hits are counted
/// (`done` tells whether they could be) and a redraw is requested.
pub open spec fn refreshed(o: FileViewerState, n: FileViewerState, lines: Seq<String>, done: bool) -> bool {
    exists|m1: FileViewerState, m2: FileViewerState|
        #![trigger live_updated(o, m1), hits_counted(m1, m2, lines, done)]
        live_updated(o, m1) && hits_counted(m1, m2, lines, done) && redrawn(m2, n)
}

/// Highlight, count and redraw (see `refreshed`).
fn refresh(state: &mut FileViewerState, lines: &[String]) -> (done: bool)
    requires
        old(state).top_line + old(state).cursor_line <= usize::MAX,
    ensures
        refreshed(*old(state), *final(state), lines@, done),
{
    let ghost o = *state;
    update_live_highlights(state);
    let ghost m1 = *state;
    let done = count_hits(state, lines);
    let ghost m2 = *state;
    request_redraw(state);
    assert(live_updated(o, m1) && hits_counted(m1, m2, lines@, done) && redrawn(m2, *state));
    done
}

// ---------------------------------------------------------------------------
// Editing the typed pattern
// ---------------------------------------------------------------------------

/// `e` is `o` with the typed pattern `p`, the history position `idx`, the
/// prompt cursor `cursor` and selection `sel`, and the error cleared.
pub open spec fn prompt_set(o: FileViewerState, e: FileViewerState, p: Seq<char>, idx: Option<usize>, cursor: int,
    sel: Option<(usize, usize)>) -> bool
{
    &&& input_frame(e, o)
    &&& same_view(e, o)
    &&& same_results(e, o)
    &&& e.needs_redraw == o.needs_redraw
    &&& e.find_active == o.find_active
    &&& e.find_pattern@ == p
    &&& e.find_history_index == idx
    &&& e.find_prompt == (FindPrompt { cursor_pos: cursor as usize, selection: sel, error: false, ..o.find_prompt })
}

/// Set the prompt fields (see `prompt_set`).
fn set_prompt(state: &mut FileViewerState, p: String, idx: Option<usize>, cursor: usize, sel: Option<(usize, usize)>)
    ensures
        prompt_set(*old(state), *final(state), p@, idx, cursor as int, sel),
{
    state.find_pattern = p;
    state.find_history_index = idx;
    state.find_prompt.cursor_pos = cursor;
    state.find_prompt.selection = sel;
    state.find_prompt.error = false;
    proof {
        reveal(input_frame);
    }
}

/// Up in the prompt: the next older history entry (the newest first), or
/// the current one when at the oldest.
pub open spec fn history_up(o: FileViewerState, e: FileViewerState) -> bool {
    let h = o.find_history@;
    match o.find_history_index {
        Some(i) => if i + 1 < h.len() {
            prompt_set(o, e, h[i + 1]@, Some((i + 1) as usize), h[i + 1]@.len() as int, o.find_prompt.selection)
        } else {
            prompt_set(o, e, o.find_pattern@, o.find_history_index, o.find_prompt.cursor_pos as int, o.find_prompt.selection)
        },
        None => prompt_set(o, e, h[0]@, Some(0usize), h[0]@.len() as int, o.find_prompt.selection),
    }
}

/// Down in the prompt: the next newer history entry, or an empty pattern
/// after the newest.
pub open spec fn history_down(o: FileViewerState, e: FileViewerState) -> bool {
    let h = o.find_history@;
    let i = o.find_history_index->0;
    if i > 0 {
        prompt_set(o, e, h[i - 1]@, Some((i - 1) as usize), h[i - 1]@.len() as int, o.find_prompt.selection)
    } else {
        prompt_set(o, e, Seq::empty(), None, 0, o.find_prompt.selection)
    }
}

/// The typed pattern with the character at `k` removed (unchanged when
/// there is none).
pub open spec fn without_char(p: Seq<char>, k: int) -> Seq<char> {
    if 0 <= k < p.len() { p.remove(k) } else { p }
}

/// The typed pattern with `c` inserted at `k` (unchanged when `k` is past
/// its end).
pub open spec fn with_char(p: Seq<char>, k: int, c: char) -> Seq<char> {
    if 0 <= k <= p.len() { p.insert(k, c) } else { p }
}

/// `p` without its character at `k`.
pub(crate) fn remove_char_at(p: &str, k: usize) -> (r: String)
    ensures
        r@ == without_char(p@, k as int),
{
    let chars = chars_of(p);
    let mut r = String::new();
    let mut i: usize = 0;
    while i < chars.len()
        invariant
            chars@ == p@,
            i <= chars@.len(),
            r@ == without_char(p@.take(i as int), k as int),
        decreases chars@.len() - i,
    {
        if i != k {
            string_push(&mut r, chars[i]);
        }
        proof {
            let t = p@.take(i as int);
            let t1 = p@.take(i + 1);
            assert(t1 =~= t.push(p@[i as int]));
            if (k as int) < i {
                assert(t.remove(k as int).push(p@[i as int]) =~= t1.remove(k as int));
            } else if k == i {
                assert(t1.remove(k as int) =~= t);
            }
        }
        i = i + 1;
    }
    assert(p@.take(chars@.len() as int) =~= p@);
    r
}

/// `p` with `c` inserted at `k`.
pub(crate) fn insert_char_at_pos(p: &str, k: usize, c: char) -> (r: String)
    ensures
        r@ == with_char(p@, k as int, c),
{
    let chars = chars_of(p);
    let mut r = String::new();
    let mut i: usize = 0;
    while i < chars.len()
        invariant
            chars@ == p@,
            i <= chars@.len(),
            r@ == (if (k as int) < i { p@.take(i as int).insert(k as int, c) } else { p@.take(i as int) }),
        decreases chars@.len() - i,
    {
        if i == k {
            string_push(&mut r, c);
        }
        string_push(&mut r, chars[i]);
        proof {
            let t = p@.take(i as int);
            let t1 = p@.take(i + 1);
            assert(t1 =~= t.push(p@[i as int]));
            if (k as int) < i {
                assert(t.insert(k as int, c).push(p@[i as int]) =~= t1.insert(k as int, c));
            } else if k == i {
                assert(t.push(c).push(p@[i as int]) =~= t1.insert(k as int, c));
            }
        }
        i = i + 1;
    }
    if k == chars.len() {
        string_push(&mut r, c);
        assert(p@.take(k as int).push(c) =~= p@.insert(k as int, c));
    }
    assert(p@.take(chars@.len() as int) =~= p@);
    r
}

// ---------------------------------------------------------------------------
// Confirming the search
// ---------------------------------------------------------------------------

/// `n` is `o` after Enter on a non-empty pattern that compiles: it becomes
/// the active search (remembering the search mode), moves to the front of
/// the history, its hits are counted at the cursor (`done` tells whether
/// they could be), the wrap status is reset and the prompt closes; when the
/// prompt was opened for replacing, the replace prompt opens empty.
pub open spec fn search_confirmed(o: FileViewerState, n: FileViewerState, lines: Seq<String>, done: bool) -> bool {
    let fp = o.find_prompt;
    &&& input_frame(n, o)
    &&& same_view(n, o)
    &&& !n.find_active && n.find_pattern == o.find_pattern && n.find_history_index is None
    &&& n.last_search_pattern == Some(o.find_pattern)
    &&& texts(n.find_history@) == history_after(texts(o.find_history@), o.find_pattern@)
    &&& !n.search_wrapped && n.wrap_warning_pending is None
    &&& n.find_scope == o.find_scope && n.filter_active == o.filter_active
    &&& n.needs_redraw
    &&& match search_hits(lines, o.spec_current_position(), o.find_pattern@, o.find_regex_mode, o.find_scope) {
        Some(h) => done && n.search_current_hit == h.0 && n.search_hit_count == h.1,
        None => !done && n.search_current_hit == o.search_current_hit && n.search_hit_count == o.search_hit_count,
    }
    &&& n.find_prompt.cursor_pos == fp.cursor_pos && n.find_prompt.selection == fp.selection
    &&& !n.find_prompt.error && n.find_prompt.saved_search_pattern is None && !n.find_prompt.via_replace
    &&& n.find_prompt.last_regex_mode == o.find_regex_mode
    &&& n.find_prompt.replace_active == (fp.via_replace || fp.replace_active)
    &&& if fp.via_replace {
        n.find_prompt.replace_pattern@.len() == 0 && n.find_prompt.replace_cursor_pos == 0
    } else {
        n.find_prompt.replace_pattern == fp.replace_pattern && n.find_prompt.replace_cursor_pos == fp.replace_cursor_pos
    }
}

/// `n` is `o` after the typed pattern becomes the active search (the
/// search mode remembered when `remember_mode`), moves to the front of the
/// history and has its hits counted (`done` tells whether they could be).
#[verifier::opaque]
pub open spec fn activated(o: FileViewerState, n: FileViewerState, lines: Seq<String>, remember_mode: bool, done: bool) -> bool {
    &&& input_frame(n, o)
    &&& same_view(n, o)
    &&& n.find_active == o.find_active && n.find_pattern == o.find_pattern && n.find_history_index == o.find_history_index
    &&& n.find_prompt == (if remember_mode { FindPrompt { last_regex_mode: o.find_regex_mode, ..o.find_prompt } } else { o.find_prompt })
    &&& n.needs_redraw == o.needs_redraw
    &&& n.last_search_pattern == Some(o.find_pattern)
    &&& texts(n.find_history@) == history_after(texts(o.find_history@), o.find_pattern@)
    &&& n.search_wrapped == o.search_wrapped
    &&& n.wrap_warning_pending == o.wrap_warning_pending
    &&& n.find_scope == o.find_scope
    &&& n.filter_active == o.filter_active
    &&& n.saved_absolute_cursor == o.saved_absolute_cursor
    &&& match search_hits(lines, o.spec_current_position(), o.find_pattern@, o.find_regex_mode, o.find_scope) {
        Some(h) => done && n.search_current_hit == h.0 && n.search_hit_count == h.1,
        None => !done && n.search_current_hit == o.search_current_hit && n.search_hit_count == o.search_hit_count,
    }
}

/// Make the typed pattern the active search, remembering the search mode
/// when `remember_mode`.
fn set_search(state: &mut FileViewerState, remember_mode: bool)
    ensures
        *final(state) == (FileViewerState {
            last_search_pattern: Some(old(state).find_pattern),
            find_prompt: FindPrompt {
                last_regex_mode: if remember_mode { old(state).find_regex_mode } else { old(state).find_prompt.last_regex_mode },
                ..old(state).find_prompt
            },
            ..*old(state)
        }),
{
    let m = if remember_mode { state.find_regex_mode } else { state.find_prompt.last_regex_mode };
    state.last_search_pattern = Some(state.find_pattern.clone());
    state.find_prompt.last_regex_mode = m;
}

/// Make the typed pattern the active search and put it at the front of the
/// history.
fn remember_search(state: &mut FileViewerState, remember_mode: bool)
    ensures
        *final(state) == (FileViewerState {
            last_search_pattern: Some(old(state).find_pattern),
            find_prompt: FindPrompt {
                last_regex_mode: if remember_mode { old(state).find_regex_mode } else { old(state).find_prompt.last_regex_mode },
                ..old(state).find_prompt
            },
            find_history: final(state).find_history,
            ..*old(state)
        }),
        texts(final(state).find_history@) == history_after(texts(old(state).find_history@), old(state).find_pattern@),
{
    set_search(state, remember_mode);
    let p = state.find_pattern.clone();
    add_to_history(state, p);
}

/// What activating the search (set, remembered, counted) changes.
proof fn lemma_activated(o: FileViewerState, s2: FileViewerState, n: FileViewerState,
    lines: Seq<String>, remember_mode: bool, done: bool)
    requires
        s2 == (FileViewerState {
            last_search_pattern: Some(o.find_pattern),
            find_prompt: FindPrompt {
                last_regex_mode: if remember_mode { o.find_regex_mode } else { o.find_prompt.last_regex_mode },
                ..o.find_prompt
            },
            find_history: s2.find_history,
            ..o
        }),
        texts(s2.find_history@) == history_after(texts(o.find_history@), o.find_pattern@),
        hits_counted(s2, n, lines, done),
    ensures
        activated(o, n, lines, remember_mode, done),
{
    reveal(activated);
    lemma_hits_counted_frame(s2, n, lines, done);
    lemma_hits_counted_input(s2, n, lines, done);
    assert(input_frame(s2, o)) by {
        reveal(input_frame);
    }
    lemma_input_frame_trans(n, s2, o);
}

/// Activate the typed pattern as the search and count its hits.
fn activate_search(state: &mut FileViewerState, lines: &[String], remember_mode: bool) -> (done: bool)
    requires
        old(state).top_line + old(state).cursor_line <= usize::MAX,
    ensures
        activated(*old(state), *final(state), lines@, remember_mode, done),
{
    let ghost o = *state;
    remember_search(state, remember_mode);
    let ghost s2 = *state;
    let done = count_hits(state, lines);
    proof {
        lemma_activated(o, s2, *state, lines@, remember_mode, done);
    }
    done
}

/// The prompt state after the search is activated and the prompt closes:
/// the error and the saved search are dropped, and when `open_replace` the
/// replace prompt opens (its text is fixed separately).
pub open spec fn closed_prompt(fp: FindPrompt, open_replace: bool, replace_pattern: String) -> FindPrompt {
    FindPrompt {
        error: false,
        saved_search_pattern: None,
        via_replace: fp.via_replace && !open_replace,
        replace_active: open_replace || fp.replace_active,
        replace_pattern: replace_pattern,
        replace_cursor_pos: if open_replace { 0 } else { fp.replace_cursor_pos },
        ..fp
    }
}

/// Close the prompt after activating the search.
fn close_after_search(state: &mut FileViewerState, via_replace_allowed: bool)
    ensures
        ({
            let fp = old(state).find_prompt;
            let via = via_replace_allowed && fp.via_replace;
            &&& *final(state) == (FileViewerState {
                search_wrapped: false,
                wrap_warning_pending: None,
                find_active: false,
                find_history_index: None,
                find_prompt: closed_prompt(fp, via, final(state).find_prompt.replace_pattern),
                ..*old(state)
            })
            &&& if via {
                final(state).find_prompt.replace_pattern@.len() == 0
            } else {
                final(state).find_prompt.replace_pattern == fp.replace_pattern
            }
        }),
{
    let via = via_replace_allowed && state.find_prompt.via_replace;
    let rp = if via { String::new() } else { state.find_prompt.replace_pattern.clone() };
    let np = FindPrompt {
        cursor_pos: state.find_prompt.cursor_pos,
        selection: state.find_prompt.selection,
        error: false,
        saved_search_pattern: None,
        via_replace: state.find_prompt.via_replace && !via,
        last_regex_mode: state.find_prompt.last_regex_mode,
        replace_active: via || state.find_prompt.replace_active,
        replace_pattern: rp,
        replace_cursor_pos: if via { 0 } else { state.find_prompt.replace_cursor_pos },
        replace_selection: state.find_prompt.replace_selection,
    };
    state.search_wrapped = false;
    state.wrap_warning_pending = None;
    state.find_active = false;
    state.find_history_index = None;
    state.find_prompt = np;
}

/// `n` is `o` after the prompt closes following an activated search (see
/// `closed_prompt`; the replace prompt opens when `via_replace_allowed` and
/// the prompt was opened for replacing).
#[verifier::opaque]
pub open spec fn closed(o: FileViewerState, n: FileViewerState, via_replace_allowed: bool) -> bool {
    let fp = o.find_prompt;
    let via = via_replace_allowed && fp.via_replace;
    &&& input_frame(n, o)
    &&& same_view(n, o)
    &&& !n.find_active && n.find_pattern == o.find_pattern
    &&& n.find_history_index is None
    &&& n.find_history == o.find_history
    &&& n.last_search_pattern == o.last_search_pattern
    &&& !n.search_wrapped && n.wrap_warning_pending is None
    &&& n.find_scope == o.find_scope && n.filter_active == o.filter_active
    &&& n.search_current_hit == o.search_current_hit
    &&& n.search_hit_count == o.search_hit_count
    &&& n.needs_redraw == o.needs_redraw
    &&& n.saved_absolute_cursor == o.saved_absolute_cursor
    &&& n.find_prompt.cursor_pos == fp.cursor_pos && n.find_prompt.selection == fp.selection
    &&& n.find_prompt.replace_selection == fp.replace_selection
    &&& !n.find_prompt.error && n.find_prompt.saved_search_pattern is None
    &&& n.find_prompt.last_regex_mode == fp.last_regex_mode
    &&& n.find_prompt.via_replace == (fp.via_replace && !via_replace_allowed)
    &&& n.find_prompt.replace_active == (via || fp.replace_active)
    &&& if via {
        n.find_prompt.replace_pattern@.len() == 0 && n.find_prompt.replace_cursor_pos == 0
    } else {
        n.find_prompt.replace_pattern == fp.replace_pattern && n.find_prompt.replace_cursor_pos == fp.replace_cursor_pos
    }
}

/// What closing the prompt leaves alone and what it sets.
proof fn lemma_closed(o: FileViewerState, n: FileViewerState, via_replace_allowed: bool)
    requires
        ({
            let fp = o.find_prompt;
            let via = via_replace_allowed && fp.via_replace;
            &&& n == (FileViewerState {
                search_wrapped: false,
                wrap_warning_pending: None,
                find_active: false,
                find_history_index: None,
                find_prompt: closed_prompt(fp, via, n.find_prompt.replace_pattern),
                ..o
            })
            &&& if via { n.find_prompt.replace_pattern@.len() == 0 } else { n.find_prompt.replace_pattern == fp.replace_pattern }
        }),
    ensures
        closed(o, n, via_replace_allowed),
{
    reveal(input_frame);
    reveal(closed);
}

/// The steps of `confirm_search` give `search_confirmed`.
proof fn lemma_confirmed(o: FileViewerState, s1: FileViewerState, s2: FileViewerState, n: FileViewerState,
    lines: Seq<String>, done: bool)
    requires
        activated(o, s1, lines, true, done),
        closed(s1, s2, true),
        redrawn(s2, n),
    ensures
        search_confirmed(o, n, lines, done),
{
    reveal(input_frame);
    reveal(activated);
    reveal(closed);
}

/// Enter on a non-empty valid pattern (see `search_confirmed`).
fn confirm_search(state: &mut FileViewerState, lines: &[String]) -> (done: bool)
    requires
        old(state).top_line + old(state).cursor_line <= usize::MAX,
    ensures
        search_confirmed(*old(state), *final(state), lines@, done),
{
    let ghost o = *state;
    let done = activate_search(state, lines, true);
    let ghost s1 = *state;
    close_after_search(state, true);
    let ghost s2 = *state;
    proof {
        lemma_closed(s1, s2, true);
    }
    request_redraw(state);
    proof {
        lemma_confirmed(o, s1, s2, *state, lines@, done);
    }
    done
}

// ---------------------------------------------------------------------------
// Filter mode: keeping the cursor on a shown line
// ---------------------------------------------------------------------------

/// Rows that put line `t` on screen: the view stays when `t` is at or below
/// its top, otherwise `t` becomes the top line.
pub open spec fn rows_for(top: int, t: int) -> (int, int) {
    if t >= top { (top, t - top) } else { (t, 0) }
}

/// The line the cursor moves to when filter mode turns on and its line is
/// not shown (lines with a hit of the search `p`, no context): the next
/// shown line below, else the previous one above; `None` when the cursor's
/// line is shown, nothing is shown, or the lines cannot be found.
pub open spec fn visible_target(o: FileViewerState, lines: Seq<String>, p: Seq<char>) -> Option<int> {
    match filtered_lines(lines, p, o.find_regex_mode, o.find_scope, 0, 0) {
        None => None,
        Some(set) => {
            let abs = o.spec_absolute_line();
            if set == Set::<usize>::empty() || set.contains(abs as usize) {
                None
            } else {
                match shown_after(Some(set), abs) {
                    Some(t) => Some(t),
                    None => match shown_before(Some(set), abs) {
                        Some(t) => Some(t),
                        None => shown_after(Some(set), -1),
                    },
                }
            }
        }
    }
}

/// Computes `visible_target`.
pub(crate) fn visible_target_of(state: &FileViewerState, lines: &[String], p: &str) -> (r: Option<usize>)
    requires
        state.top_line + state.cursor_line <= usize::MAX,
    ensures
        match r {
            Some(t) => visible_target(*state, lines@, p@) == Some(t as int),
            None => visible_target(*state, lines@, p@) is None,
        },
{
    let lv = crate::coordinates::copy_lines_vec(lines);
    let v = match get_lines_with_matches_checked(&lv, p, state.find_regex_mode, state.find_scope, 0, 0) {
        Some(v) => v,
        None => return None,
    };
    let ghost set = set_of(v@);
    if v.len() == 0 {
        assert(set =~= Set::<usize>::empty());
        return None;
    }
    assert(set.contains(v@[0]));
    let abs = state.absolute_line();
    let mut k: usize = 0;
    while k < v.len() && v[k] != abs
        invariant
            k <= v@.len(),
            forall|j: int| 0 <= j < k ==> v@[j] != abs,
        decreases v@.len() - k,
    {
        k = k + 1;
    }
    if k < v.len() {
        assert(set.contains(v@[k as int]));
        return None;
    }
    assert(!set.contains(abs)) by {
        if set.contains(abs) {
            let j = choose|j: int| 0 <= j < v@.len() && v@[j] == abs;
        }
    }
    match first_entry_after(&v, abs) {
        Some(t) => {
            proof {
                lemma_shown_after(set, abs as int, t);
            }
            return Some(t);
        },
        None => {
            assert forall|x: usize| !crate::vertical::is_first_after(set, abs as int, x) by {
                if set.contains(x) {
                    assert(x <= abs);
                }
            }
        },
    }
    match last_entry_before(&v, abs) {
        Some(t) => {
            proof {
                lemma_shown_before(set, abs as int, t);
            }
            Some(t)
        },
        None => {
            assert forall|x: usize| !crate::vertical::is_last_before(set, abs as int, x) by {
                if set.contains(x) {
                    assert(x >= abs);
                }
            }
            assert(set.contains(v@[0]) && v@[0] >= abs && v@[0] != abs);
            assert(false);
            None
        },
    }
}

/// The line whose length the cursor column is pulled back to after a move
/// to line `t`: the parked line while the cursor is parked off screen
/// (`saved`), otherwise `t`.
pub open spec fn clamped_line(saved: Option<usize>, t: int) -> int {
    match saved {
        Some(a) => a as int,
        None => t,
    }
}

/// `n` is `o` with the cursor put on line `t` (see `rows_for`) and its
/// column pulled back into the line (see `clamped_line`).
pub open spec fn moved_to_line(o: FileViewerState, n: FileViewerState, lines: Seq<String>, t: int) -> bool {
    let rows = rows_for(o.top_line as int, t);
    let c = o.cursor_col;
    let l = clamped_line(o.saved_absolute_cursor, t);
    &&& input_frame(n, o)
    &&& same_prompt(n, o)
    &&& same_results(n, o)
    &&& n.needs_redraw == o.needs_redraw
    &&& n.top_line == rows.0
    &&& n.cursor_line == rows.1
    &&& if 0 <= l < lines.len() && c > lines[l]@.len() {
        n.cursor_col == lines[l]@.len() && n.desired_cursor_col == lines[l]@.len()
    } else {
        n.cursor_col == c && n.desired_cursor_col == o.desired_cursor_col
    }
}

/// Put the cursor on line `t` (see `rows_for`), then pull its column back
/// into the line (see `clamped_line`).
pub(crate) fn move_to_line(state: &mut FileViewerState, lines: &[String], t: usize)
    requires
        old(state).top_line + old(state).cursor_line <= usize::MAX,
    ensures
        moved_to_line(*old(state), *final(state), lines@, t as int),
{
    if t >= state.top_line {
        state.cursor_line = t - state.top_line;
    } else {
        state.top_line = t;
        state.cursor_line = 0;
    }
    let ghost mid = *state;
    state.clamp_cursor_to_line_bounds(lines);
    proof {
        reveal(input_frame);
    }
}

// ---------------------------------------------------------------------------
// The key handler
// ---------------------------------------------------------------------------

/// `n` is `o` after Ctrl+F on a non-empty pattern: filter mode toggles;
/// when the pattern compiles as a single-line search it becomes the active
/// search as on Enter (but the search mode is not remembered and the replace
/// prompt does not open), and when filter mode is now on and the cursor's
/// line is not shown, the cursor moves to a shown line (see
/// `visible_target`, `rows_for`), its column pulled back into the line
/// (see `clamped_line`).
pub open spec fn filter_toggled(o: FileViewerState, n: FileViewerState, lines: Seq<String>, done: bool) -> bool {
    let f = !o.filter_active;
    let fp = o.find_prompt;
    &&& input_frame(n, o)
    &&& n.filter_active == f
    &&& if !regex_compiles(single_line_source(o.find_pattern@, o.find_regex_mode)) {
        &&& done
        &&& same_view(n, o) && same_prompt(n, o)
        &&& n.find_history == o.find_history && n.last_search_pattern == o.last_search_pattern
        &&& n.search_wrapped == o.search_wrapped && n.wrap_warning_pending == o.wrap_warning_pending
        &&& n.find_scope == o.find_scope && n.search_current_hit == o.search_current_hit
        &&& n.search_hit_count == o.search_hit_count && n.needs_redraw == o.needs_redraw
    } else {
        &&& !n.find_active && n.find_pattern == o.find_pattern && n.find_history_index is None
        &&& n.last_search_pattern == Some(o.find_pattern)
        &&& texts(n.find_history@) == history_after(texts(o.find_history@), o.find_pattern@)
        &&& !n.search_wrapped && n.wrap_warning_pending is None && n.find_scope == o.find_scope
        &&& n.needs_redraw
        &&& match search_hits(lines, o.spec_current_position(), o.find_pattern@, o.find_regex_mode, o.find_scope) {
            Some(h) => done && n.search_current_hit == h.0 && n.search_hit_count == h.1,
            None => !done && n.search_current_hit == o.search_current_hit && n.search_hit_count == o.search_hit_count,
        }
        &&& n.find_prompt == (FindPrompt { error: false, saved_search_pattern: None, ..fp })
        &&& match (if f { visible_target(o, lines, o.find_pattern@) } else { None }) {
            Some(t) => {
                let rows = rows_for(o.top_line as int, t);
                let l = clamped_line(o.saved_absolute_cursor, t);
                &&& n.top_line == rows.0 && n.cursor_line == rows.1
                &&& if 0 <= l < lines.len() && o.cursor_col > lines[l]@.len() {
                    n.cursor_col == lines[l]@.len() && n.desired_cursor_col == lines[l]@.len()
                } else {
                    n.cursor_col == o.cursor_col && n.desired_cursor_col == o.desired_cursor_col
                }
            },
            None => same_view(n, o),
        }
    }
}

/// Flip filter mode.
fn flip_filter(state: &mut FileViewerState)
    ensures
        *final(state) == (FileViewerState { filter_active: !old(state).filter_active, ..*old(state) }),
{
    let f = !state.filter_active;
    state.filter_active = f;
}

/// Ctrl+F on a pattern that does not compile only flips filter mode.
proof fn lemma_filter_only(o: FileViewerState, n: FileViewerState, lines: Seq<String>)
    requires
        n == (FileViewerState { filter_active: !o.filter_active, ..o }),
        !regex_compiles(single_line_source(o.find_pattern@, o.find_regex_mode)),
    ensures
        filter_toggled(o, n, lines, true),
{
    reveal(input_frame);
}

/// Ctrl+F on a pattern that compiles: the steps of `toggle_filter` give
/// `filter_toggled`.
#[verifier::rlimit(60)]
proof fn lemma_filter_steps(o: FileViewerState, s0: FileViewerState, s1: FileViewerState, s2: FileViewerState,
    s3: FileViewerState, n: FileViewerState, lines: Seq<String>, done: bool, target: Option<usize>)
    requires
        s0 == (FileViewerState { filter_active: !o.filter_active, ..o }),
        regex_compiles(single_line_source(o.find_pattern@, o.find_regex_mode)),
        activated(s0, s1, lines, false, done),
        closed(s1, s2, false),
        match target {
            Some(t) => s2.filter_active && visible_target(s2, lines, s2.find_pattern@) == Some(t as int),
            None => !s2.filter_active || visible_target(s2, lines, s2.find_pattern@) is None,
        },
        match target {
            Some(t) => {
                let rows = rows_for(s2.top_line as int, t as int);
                let c = s2.cursor_col;
                let l = clamped_line(s2.saved_absolute_cursor, t as int);
                &&& input_frame(s3, s2) && same_prompt(s3, s2) && same_results(s3, s2)
                &&& s3.needs_redraw == s2.needs_redraw
                &&& s3.top_line == rows.0 && s3.cursor_line == rows.1
                &&& if 0 <= l < lines.len() && c > lines[l]@.len() {
                    s3.cursor_col == lines[l]@.len() && s3.desired_cursor_col == lines[l]@.len()
                } else {
                    s3.cursor_col == c && s3.desired_cursor_col == s2.desired_cursor_col
                }
            },
            None => s3 == s2,
        },
        redrawn(s3, n),
    ensures
        filter_toggled(o, n, lines, done),
{
    reveal(input_frame);
    reveal(activated);
    reveal(closed);
    assert(visible_target(s2, lines, s2.find_pattern@) == visible_target(o, lines, o.find_pattern@));
}

/// Ctrl+F on a non-empty pattern (see `filter_toggled`).
fn toggle_filter(state: &mut FileViewerState, lines: &[String]) -> (done: bool)
    requires
        old(state).top_line + old(state).cursor_line <= usize::MAX,
    ensures
        filter_toggled(*old(state), *final(state), lines@, done),
{
    let ghost o = *state;
    flip_filter(state);
    let ghost s0 = *state;
    if pattern_to_regex(state.find_pattern.as_str(), state.find_regex_mode).is_none() {
        proof {
            lemma_filter_only(o, s0, lines@);
        }
        return true;
    }
    let done = activate_search(state, lines, false);
    let ghost s1 = *state;
    close_after_search(state, false);
    let ghost s2 = *state;
    proof {
        lemma_closed(s1, s2, false);
        assert(s2.top_line == o.top_line && s2.cursor_line == o.cursor_line && s2.saved_absolute_cursor == o.saved_absolute_cursor) by {
            reveal(activated);
            reveal(closed);
        }
    }
    let target = if state.filter_active {
        let p = state.find_pattern.clone();
        visible_target_of(state, lines, p.as_str())
    } else {
        None
    };
    match target {
        Some(t) => move_to_line(state, lines, t),
        None => {},
    }
    let ghost s3 = *state;
    request_redraw(state);
    proof {
        lemma_filter_steps(o, s0, s1, s2, s3, *state, lines@, done, target);
    }
    done
}

/// `n` is `o` after key `key` at the find prompt, and `r` is (whether the
/// prompt closed, whether the hit count could be done):
/// - Esc closes the prompt, clears the pattern and restores the search from
///   before the prompt opened;
/// - Enter closes the prompt: on an empty pattern the search, its warning
///   and scope are dropped; a pattern that does not compile is flagged and
///   the prompt stays; otherwise see `search_confirmed`;
/// - Up and Down step through the history (see `history_up`,
///   `history_down`), Backspace deletes before the prompt cursor, and a
///   character is inserted at it (Control, Alt and control characters are
///   ignored, after the prompt selection is dropped); each of these then
///   highlights and counts (see `refreshed`);
/// - Left, Right, Home and End move the prompt cursor; Ctrl+A selects the
///   whole pattern; Ctrl+F toggles filter mode (see `filter_toggled`);
/// - other keys do nothing.
pub open spec fn find_input_done(o: FileViewerState, n: FileViewerState, lines: Seq<String>, key: KeyEvent, r: (bool, bool)) -> bool {
    let fp = o.find_prompt;
    let p = o.find_pattern@;
    let pos = fp.cursor_pos as int;
    let ctrl = key.modifiers.control;
    match key.code {
        KeyCode::Esc => {
            &&& r == (true, true)
            &&& input_frame(n, o) && same_view(n, o) && n.needs_redraw
            &&& !n.find_active && n.find_pattern@.len() == 0 && n.find_history_index is None
            &&& n.last_search_pattern == fp.saved_search_pattern
            &&& n.find_prompt == (FindPrompt { via_replace: false, error: false, saved_search_pattern: None, ..fp })
            &&& n.find_history == o.find_history && n.search_wrapped == o.search_wrapped
            &&& n.wrap_warning_pending == o.wrap_warning_pending && n.find_scope == o.find_scope
            &&& n.filter_active == o.filter_active && n.search_current_hit == o.search_current_hit
            &&& n.search_hit_count == o.search_hit_count
        },
        KeyCode::Enter => if p.len() == 0 {
            &&& r == (true, true)
            &&& input_frame(n, o) && same_view(n, o) && n.needs_redraw
            &&& !n.find_active && n.find_pattern == o.find_pattern && n.find_history_index is None
            &&& n.last_search_pattern is None && n.wrap_warning_pending is None && n.find_scope is None
            &&& n.find_prompt == (FindPrompt { via_replace: false, error: false, saved_search_pattern: None, ..fp })
            &&& n.find_history == o.find_history && n.search_wrapped == o.search_wrapped
            &&& n.filter_active == o.filter_active && n.search_current_hit == o.search_current_hit
            &&& n.search_hit_count == o.search_hit_count
        } else if !pattern_valid(p, o.find_regex_mode) {
            &&& r == (false, true)
            &&& input_frame(n, o) && same_view(n, o) && same_results(n, o) && n.needs_redraw
            &&& n.find_active == o.find_active && n.find_pattern == o.find_pattern
            &&& n.find_history_index == o.find_history_index
            &&& n.find_prompt == (FindPrompt { error: true, ..fp })
        } else {
            r.0 && search_confirmed(o, n, lines, r.1)
        },
        KeyCode::Up => if o.find_history@.len() == 0 {
            r == (false, true) && n == o
        } else {
            !r.0 && exists|e: FileViewerState| #[trigger] history_up(o, e) && refreshed(e, n, lines, r.1)
        },
        KeyCode::Down => if o.find_history_index is None {
            r == (false, true) && n == o
        } else {
            !r.0 && exists|e: FileViewerState| #[trigger] history_down(o, e) && refreshed(e, n, lines, r.1)
        },
        KeyCode::Backspace => if pos == 0 {
            r == (false, true) && n == o
        } else {
            !r.0 && exists|e: FileViewerState|
                #[trigger] prompt_set(o, e, without_char(p, pos - 1), None, pos - 1, None) && refreshed(e, n, lines, r.1)
        },
        KeyCode::Left => r == (false, true) && if pos > 0 {
            redrawn_prompt(o, n, FindPrompt { cursor_pos: (pos - 1) as usize, selection: None, ..fp })
        } else {
            n == o
        },
        KeyCode::Right => r == (false, true) && if pos < p.len() {
            redrawn_prompt(o, n, FindPrompt { cursor_pos: (pos + 1) as usize, selection: None, ..fp })
        } else {
            n == o
        },
        KeyCode::Home => r == (false, true) && redrawn_prompt(o, n, FindPrompt { cursor_pos: 0, selection: None, ..fp }),
        KeyCode::End => r == (false, true) && redrawn_prompt(o, n, FindPrompt { cursor_pos: p.len() as usize, selection: None, ..fp }),
        KeyCode::Char(c) => if (c == 'f' || c == '\x06') && ctrl {
            if p.len() == 0 { r == (false, true) && n == o } else { r.0 && filter_toggled(o, n, lines, r.1) }
        } else if c == '\x01' || (c == 'a' && ctrl) {
            r == (false, true) && redrawn_prompt(o, n, if p.len() > 0 {
                FindPrompt { selection: Some((0usize, p.len() as usize)), cursor_pos: p.len() as usize, ..fp }
            } else {
                fp
            })
        } else if ctrl || key.modifiers.alt || (c as u32) < 0x20 {
            r == (false, true) && input_frame(n, o) && same_view(n, o) && same_results(n, o)
                && n.find_active == o.find_active && n.find_pattern == o.find_pattern
                && n.find_history_index == o.find_history_index && n.needs_redraw == o.needs_redraw
                && n.find_prompt == (FindPrompt { selection: None, ..fp })
        } else {
            !r.0 && exists|e: FileViewerState|
                #[trigger] prompt_set(o, e, with_char(p, pos, c), None, pos + 1, None) && refreshed(e, n, lines, r.1)
        },
        _ => r == (false, true) && n == o,
    }
}

/// `n` is `o` with the prompt state `fp` and a redraw requested.
pub open spec fn redrawn_prompt(o: FileViewerState, n: FileViewerState, fp: FindPrompt) -> bool {
    &&& input_frame(n, o)
    &&& same_view(n, o)
    &&& same_results(n, o)
    &&& n.find_active == o.find_active && n.find_pattern == o.find_pattern
    &&& n.find_history_index == o.find_history_index
    &&& n.find_prompt == fp
    &&& n.needs_redraw
}

/// Set the prompt cursor and selection, and request a redraw when `redraw`.
fn set_prompt_state(state: &mut FileViewerState, cursor: usize, sel: Option<(usize, usize)>, redraw: bool)
    ensures
        *final(state) == (FileViewerState {
            find_prompt: FindPrompt { cursor_pos: cursor, selection: sel, ..old(state).find_prompt },
            needs_redraw: redraw || old(state).needs_redraw,
            ..*old(state)
        }),
{
    let nr = redraw || state.needs_redraw;
    state.find_prompt.cursor_pos = cursor;
    state.find_prompt.selection = sel;
    state.needs_redraw = nr;
}

/// A change of the prompt state and the redraw flag alone keeps the rest.
proof fn lemma_prompt_only(o: FileViewerState, n: FileViewerState)
    requires
        n == (FileViewerState { find_prompt: n.find_prompt, needs_redraw: n.needs_redraw, ..o }),
    ensures
        input_frame(n, o),
        same_view(n, o),
        same_results(n, o),
        n.find_active == o.find_active && n.find_pattern == o.find_pattern,
        n.find_history_index == o.find_history_index,
{
    reveal(input_frame);
}

/// Close the prompt with an empty pattern, restoring the saved search.
fn close_restoring(state: &mut FileViewerState)
    ensures
        *final(state) == (FileViewerState {
            find_active: false,
            find_pattern: final(state).find_pattern,
            find_history_index: None,
            last_search_pattern: old(state).find_prompt.saved_search_pattern,
            needs_redraw: true,
            find_prompt: FindPrompt { via_replace: false, error: false, saved_search_pattern: None, ..old(state).find_prompt },
            ..*old(state)
        }),
        final(state).find_pattern@.len() == 0,
{
    let saved = state.find_prompt.saved_search_pattern.take();
    state.find_prompt.via_replace = false;
    state.find_prompt.error = false;
    state.find_active = false;
    state.find_pattern = String::new();
    state.find_history_index = None;
    state.last_search_pattern = saved;
    state.needs_redraw = true;
}

/// Esc at the prompt.
proof fn lemma_esc(o: FileViewerState, n: FileViewerState, lines: Seq<String>, key: KeyEvent)
    requires
        key.code is Esc,
        n == (FileViewerState {
            find_active: false,
            find_pattern: n.find_pattern,
            find_history_index: None,
            last_search_pattern: o.find_prompt.saved_search_pattern,
            needs_redraw: true,
            find_prompt: FindPrompt { via_replace: false, error: false, saved_search_pattern: None, ..o.find_prompt },
            ..o
        }),
        n.find_pattern@.len() == 0,
    ensures
        find_input_done(o, n, lines, key, (true, true)),
{
    reveal(input_frame);
}

/// Close the prompt on an empty pattern, dropping the search.
fn close_clearing(state: &mut FileViewerState)
    ensures
        *final(state) == (FileViewerState {
            find_active: false,
            find_history_index: None,
            wrap_warning_pending: None,
            last_search_pattern: None,
            find_scope: None,
            needs_redraw: true,
            find_prompt: FindPrompt { via_replace: false, error: false, saved_search_pattern: None, ..old(state).find_prompt },
            ..*old(state)
        }),
{
    state.find_prompt.via_replace = false;
    state.find_prompt.error = false;
    state.find_prompt.saved_search_pattern = None;
    state.find_active = false;
    state.find_history_index = None;
    state.wrap_warning_pending = None;
    state.last_search_pattern = None;
    state.find_scope = None;
    state.needs_redraw = true;
}

/// Flag the typed pattern as invalid.
fn flag_error(state: &mut FileViewerState)
    ensures
        *final(state) == (FileViewerState {
            needs_redraw: true,
            find_prompt: FindPrompt { error: true, ..old(state).find_prompt },
            ..*old(state)
        }),
{
    state.find_prompt.error = true;
    state.needs_redraw = true;
}

/// Enter on an empty pattern.
proof fn lemma_enter_empty(o: FileViewerState, n: FileViewerState, lines: Seq<String>, key: KeyEvent)
    requires
        key.code is Enter,
        o.find_pattern@.len() == 0,
        n == (FileViewerState {
            find_active: false,
            find_history_index: None,
            wrap_warning_pending: None,
            last_search_pattern: None,
            find_scope: None,
            needs_redraw: true,
            find_prompt: FindPrompt { via_replace: false, error: false, saved_search_pattern: None, ..o.find_prompt },
            ..o
        }),
    ensures
        find_input_done(o, n, lines, key, (true, true)),
{
    reveal(input_frame);
}

/// Enter on a pattern that does not compile.
proof fn lemma_enter_invalid(o: FileViewerState, n: FileViewerState, lines: Seq<String>, key: KeyEvent)
    requires
        key.code is Enter,
        o.find_pattern@.len() != 0,
        !pattern_valid(o.find_pattern@, o.find_regex_mode),
        n == (FileViewerState { needs_redraw: true, find_prompt: FindPrompt { error: true, ..o.find_prompt }, ..o }),
    ensures
        find_input_done(o, n, lines, key, (false, true)),
{
    reveal(input_frame);
}

/// Enter at the prompt.
fn enter_key(state: &mut FileViewerState, lines: &[String], key: KeyEvent) -> (r: (bool, bool))
    requires
        key.code is Enter,
        old(state).top_line + old(state).cursor_line <= usize::MAX,
    ensures
        find_input_done(*old(state), *final(state), lines@, key, r),
{
    let ghost o = *state;
    if state.find_pattern.unicode_len() == 0 {
        close_clearing(state);
        proof {
            lemma_enter_empty(o, *state, lines@, key);
        }
        return (true, true);
    }
    if !check_pattern(state.find_pattern.as_str(), state.find_regex_mode) {
        flag_error(state);
        proof {
            lemma_enter_invalid(o, *state, lines@, key);
        }
        return (false, true);
    }
    let done = confirm_search(state, lines);
    (true, done)
}

/// Up at the prompt.
fn up_key(state: &mut FileViewerState, lines: &[String], key: KeyEvent) -> (r: (bool, bool))
    requires
        key.code is Up,
        old(state).top_line + old(state).cursor_line <= usize::MAX,
    ensures
        find_input_done(*old(state), *final(state), lines@, key, r),
{
    let ghost o = *state;
    let n = state.find_history.len();
    if n == 0 {
        return (false, true);
    }
    let (idx, p) = match state.find_history_index {
        Some(i) => if i < n - 1 {
            (Some(i + 1), state.find_history[i + 1].clone())
        } else {
            (state.find_history_index, state.find_pattern.clone())
        },
        None => (Some(0), state.find_history[0].clone()),
    };
    let cursor = match state.find_history_index {
        Some(i) => if i < n - 1 { p.unicode_len() } else { state.find_prompt.cursor_pos },
        None => p.unicode_len(),
    };
    let sel = state.find_prompt.selection;
    set_prompt(state, p, idx, cursor, sel);
    let ghost e = *state;
    assert(history_up(o, e));
    let done = refresh(state, lines);
    assert(history_up(o, e) && refreshed(e, *state, lines@, done));
    (false, done)
}

/// Down at the prompt.
fn down_key(state: &mut FileViewerState, lines: &[String], key: KeyEvent) -> (r: (bool, bool))
    requires
        key.code is Down,
        old(state).top_line + old(state).cursor_line <= usize::MAX,
        old(state).find_history_index matches Some(i) ==> i <= old(state).find_history@.len(),
    ensures
        find_input_done(*old(state), *final(state), lines@, key, r),
{
    let ghost o = *state;
    let i = match state.find_history_index {
        Some(i) => i,
        None => return (false, true),
    };
    let sel = state.find_prompt.selection;
    if i > 0 {
        let p = state.find_history[i - 1].clone();
        let cursor = p.unicode_len();
        set_prompt(state, p, Some(i - 1), cursor, sel);
    } else {
        set_prompt(state, String::new(), None, 0, sel);
    }
    let ghost e = *state;
    assert(history_down(o, e));
    let done = refresh(state, lines);
    assert(history_down(o, e) && refreshed(e, *state, lines@, done));
    (false, done)
}

/// Backspace at the prompt.
fn backspace_key(state: &mut FileViewerState, lines: &[String], key: KeyEvent) -> (r: (bool, bool))
    requires
        key.code is Backspace,
        old(state).top_line + old(state).cursor_line <= usize::MAX,
    ensures
        find_input_done(*old(state), *final(state), lines@, key, r),
{
    let ghost o = *state;
    let pos = state.find_prompt.cursor_pos;
    if pos == 0 {
        return (false, true);
    }
    let p = remove_char_at(state.find_pattern.as_str(), pos - 1);
    set_prompt(state, p, None, pos - 1, None);
    let ghost e = *state;
    let done = refresh(state, lines);
    assert(prompt_set(o, e, without_char(o.find_pattern@, pos - 1), None, pos - 1, None)
        && refreshed(e, *state, lines@, done));
    (false, done)
}

/// Setting the prompt state `fp` with a redraw gives `redrawn_prompt`.
proof fn lemma_prompt_redrawn(o: FileViewerState, n: FileViewerState, fp: FindPrompt)
    requires
        n == (FileViewerState { find_prompt: fp, needs_redraw: true, ..o }),
    ensures
        redrawn_prompt(o, n, fp),
{
    reveal(input_frame);
}

/// Left, Right, Home and End at the prompt.
fn move_prompt_cursor(state: &mut FileViewerState, lines: &[String], key: KeyEvent) -> (r: (bool, bool))
    requires
        key.code is Left || key.code is Right || key.code is Home || key.code is End,
    ensures
        find_input_done(*old(state), *final(state), lines@, key, r),
{
    let ghost o = *state;
    let pos = state.find_prompt.cursor_pos;
    let len = state.find_pattern.unicode_len();
    let target: usize = match key.code {
        KeyCode::Left => if pos > 0 { pos - 1 } else { return (false, true) },
        KeyCode::Right => if pos < len { pos + 1 } else { return (false, true) },
        KeyCode::Home => 0,
        _ => len,
    };
    set_prompt_state(state, target, None, true);
    proof {
        lemma_prompt_redrawn(o, *state, FindPrompt { cursor_pos: target, selection: None, ..o.find_prompt });
    }
    (false, true)
}

/// Typing after the prompt selection was dropped sets the prompt as if
/// from the state before.
proof fn lemma_typed(o: FileViewerState, s1: FileViewerState, e: FileViewerState, p: Seq<char>, cp: int)
    requires
        s1 == (FileViewerState {
            find_prompt: FindPrompt { cursor_pos: cp as usize, selection: None, ..o.find_prompt },
            needs_redraw: o.needs_redraw,
            ..o
        }),
        prompt_set(s1, e, p, None, cp + 1, None),
    ensures
        prompt_set(o, e, p, None, cp + 1, None),
{
    reveal(input_frame);
}

/// A character key at the prompt.
fn char_key(state: &mut FileViewerState, lines: &[String], key: KeyEvent, c: char) -> (r: (bool, bool))
    requires
        key.code == KeyCode::Char(c),
        old(state).top_line + old(state).cursor_line <= usize::MAX,
        old(state).find_prompt.cursor_pos < usize::MAX,
    ensures
        find_input_done(*old(state), *final(state), lines@, key, r),
{
    let ghost o = *state;
    let ctrl = key.modifiers.control;
    if (c == 'f' || c == '\x06') && ctrl {
        if state.find_pattern.unicode_len() == 0 {
            return (false, true);
        }
        let done = toggle_filter(state, lines);
        return (true, done);
    }
    if c == '\x01' || (c == 'a' && ctrl) {
        return select_all_key(state, lines, key, c);
    }
    type_key(state, lines, key, c)
}

/// Ctrl+A at the prompt.
fn select_all_key(state: &mut FileViewerState, lines: &[String], key: KeyEvent, c: char) -> (r: (bool, bool))
    requires
        key.code == KeyCode::Char(c),
        !((c == 'f' || c == '\x06') && key.modifiers.control),
        c == '\x01' || (c == 'a' && key.modifiers.control),
    ensures
        find_input_done(*old(state), *final(state), lines@, key, r),
{
    let ghost o = *state;
    let len = state.find_pattern.unicode_len();
    let (cp, sel) = if len > 0 {
        (len, Some((0, len)))
    } else {
        (state.find_prompt.cursor_pos, state.find_prompt.selection)
    };
    set_prompt_state(state, cp, sel, true);
    proof {
        lemma_prompt_redrawn(o, *state, FindPrompt { cursor_pos: cp, selection: sel, ..o.find_prompt });
    }
    (false, true)
}

/// Another character key at the prompt: typed into the pattern unless it
/// is a control key.
fn type_key(state: &mut FileViewerState, lines: &[String], key: KeyEvent, c: char) -> (r: (bool, bool))
    requires
        key.code == KeyCode::Char(c),
        !((c == 'f' || c == '\x06') && key.modifiers.control),
        !(c == '\x01' || (c == 'a' && key.modifiers.control)),
        old(state).top_line + old(state).cursor_line <= usize::MAX,
        old(state).find_prompt.cursor_pos < usize::MAX,
    ensures
        find_input_done(*old(state), *final(state), lines@, key, r),
{
    let ghost o = *state;
    let cp = state.find_prompt.cursor_pos;
    set_prompt_state(state, cp, None, false);
    let ghost s1 = *state;
    proof {
        lemma_prompt_only(o, s1);
    }
    if key.modifiers.control || key.modifiers.alt || (c as u32) < 0x20 {
        return (false, true);
    }
    let p = insert_char_at_pos(state.find_pattern.as_str(), cp, c);
    set_prompt(state, p, None, cp + 1, None);
    let ghost e = *state;
    proof {
        lemma_typed(o, s1, e, with_char(o.find_pattern@, cp as int, c), cp as int);
    }
    let done = refresh(state, lines);
    assert(prompt_set(o, e, with_char(o.find_pattern@, cp as int, c), None, cp + 1, None)
        && refreshed(e, *state, lines@, done));
    (false, done)
}

/// Handle a key at the find prompt (see `find_input_done`).
pub fn handle_find_input(state: &mut FileViewerState, lines: &[String], key: KeyEvent, visible_lines: usize) -> (r: (bool, bool))
    requires
        old(state).top_line + old(state).cursor_line <= usize::MAX,
        old(state).find_prompt.cursor_pos < usize::MAX,
        old(state).find_history_index matches Some(i) ==> i <= old(state).find_history@.len(),
    ensures
        find_input_done(*old(state), *final(state), lines@, key, r),
{
    match key.code {
        KeyCode::Esc => {
            let ghost o = *state;
            close_restoring(state);
            proof {
                lemma_esc(o, *state, lines@, key);
            }
            (true, true)
        },
        KeyCode::Enter => enter_key(state, lines, key),
        KeyCode::Up => up_key(state, lines, key),
        KeyCode::Down => down_key(state, lines, key),
        KeyCode::Backspace => backspace_key(state, lines, key),
        KeyCode::Left | KeyCode::Right | KeyCode::Home | KeyCode::End => move_prompt_cursor(state, lines, key),
        KeyCode::Char(c) => char_key(state, lines, key, c),
        _ => (false, true),
    }
}

} // verus!

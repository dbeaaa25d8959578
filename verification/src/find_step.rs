//! Find next / find previous (F3, Shift+F3): move to the neighbouring match
//! of the last search, wrapping around when needed, and refresh the hit
//! counter.
use vstd::prelude::*;
use crate::editor_state::{clamp_col, jump_view, FileViewerState, Position};
use crate::find::{escape_at, multi_line_source, multiline_regex, pattern_is_multiline, pattern_to_regex, regex_compiles, single_line_source};
use crate::search::{
    calculate_search_hits_checked, find_next_checked, lemma_search_hits_range, find_next_multiline_checked, find_prev_checked,
    find_prev_multiline_checked, next_match, next_multi_match, prev_match, prev_multi_match, search_hits,
};

verus! {

/// `a` and `b` agree on everything but the cursor and view, the remembered
/// column, the saved off-screen cursor, the redraw flag and the search
/// status (wrapped, pending warning, hit counter).
#[verifier::opaque]
pub open spec fn find_frame(a: FileViewerState, b: FileViewerState) -> bool {
    &&& a.cursor_blink_state == b.cursor_blink_state
    &&& a.last_blink_time == b.last_blink_time
    &&& a.needs_footer_redraw == b.needs_footer_redraw
    &&& a.term_width == b.term_width
    &&& a.settings == b.settings
    &&& a.mouse_dragging == b.mouse_dragging
    &&& a.drag_source_start == b.drag_source_start
    &&& a.drag_source_end == b.drag_source_end
    &&& a.drag_text == b.drag_text
    &&& a.dragging_selection_active == b.dragging_selection_active
    &&& a.drag_target == b.drag_target
    &&& a.drag_click_logical_pos == b.drag_click_logical_pos
    &&& a.find_active == b.find_active
    &&& a.find_regex_mode == b.find_regex_mode
    &&& a.filter_active == b.filter_active
    &&& a.filter_context_before == b.filter_context_before
    &&& a.filter_context_after == b.filter_context_after
    &&& a.find_pattern == b.find_pattern
    &&& a.find_history == b.find_history
    &&& a.find_history_index == b.find_history_index
    &&& a.last_search_pattern == b.last_search_pattern
    &&& a.find_scope == b.find_scope
    &&& a.horizontal_scroll_offset == b.horizontal_scroll_offset
    &&& a.line_wrapping_override == b.line_wrapping_override
    &&& a.is_read_only == b.is_read_only
    &&& a.markdown_rendered == b.markdown_rendered
    &&& a.rendered_lines == b.rendered_lines
    &&& a.rendered_selection_start == b.rendered_selection_start
    &&& a.rendered_selection_end == b.rendered_selection_end
    &&& a.rendered_mouse_dragging == b.rendered_mouse_dragging
    &&& a.status_message == b.status_message
    &&& a.find_prompt == b.find_prompt
    &&& a.goto_line_active == b.goto_line_active
    &&& a.goto_line_input == b.goto_line_input
    &&& a.goto_line_cursor_pos == b.goto_line_cursor_pos
    &&& a.goto_line_typing_started == b.goto_line_typing_started
    &&& a.undo_history == b.undo_history
    &&& a.cursor_at_wrap_end == b.cursor_at_wrap_end
    &&& a.selection_start == b.selection_start
    &&& a.selection_end == b.selection_end
    &&& a.selection_anchor == b.selection_anchor
    &&& a.block_selection == b.block_selection
    &&& a.multi_cursors == b.multi_cursors
    &&& a.modified == b.modified
}

/// `find_frame` is transitive.
proof fn lemma_find_frame_trans(a: FileViewerState, b: FileViewerState, c: FileViewerState)
    requires
        find_frame(a, b),
        find_frame(b, c),
    ensures
        find_frame(a, c),
{
    reveal(find_frame);
}

/// Where a find step from the cursor lands, and whether the single-line
/// search wrapped: `Some(None)` when there is no last search, its pattern
/// does not compile, or nothing matches; `None` when the search cannot be
/// done.  The search first looks without wrapping (forward: `next_match` /
/// `next_multi_match`; backward: `prev_match` / `prev_multi_match`), then,
/// when that finds nothing, with wrapping.  A multi-line pattern never
/// reports a wrap.
pub open spec fn find_target(s: FileViewerState, lines: Seq<String>, forward: bool) -> Option<Option<(Position, bool)>> {
    match s.last_search_pattern {
        None => Some(None),
        Some(pat) => {
            let start = s.spec_current_position();
            let scope = s.find_scope;
            if exists|i: int| escape_at(pat@, i) {
                let src = multi_line_source(pat@);
                if !regex_compiles(src) {
                    Some(None)
                } else {
                    let first = if forward { next_multi_match(lines, start, src, false, scope) } else { prev_multi_match(lines, start, src, false, scope) };
                    let second = if forward { next_multi_match(lines, start, src, true, scope) } else { prev_multi_match(lines, start, src, true, scope) };
                    match first {
                        None => None,
                        Some(Some(p)) => Some(Some((p, false))),
                        Some(None) => match second {
                            None => None,
                            Some(Some(p)) => Some(Some((p, false))),
                            Some(None) => Some(None),
                        },
                    }
                }
            } else {
                let src = single_line_source(pat@, s.find_regex_mode);
                if !regex_compiles(src) {
                    Some(None)
                } else {
                    let first = if forward { next_match(lines, start, src, false, scope) } else { prev_match(lines, start, src, false, scope) };
                    let second = if forward { next_match(lines, start, src, true, scope) } else { prev_match(lines, start, src, true, scope) };
                    match first {
                        None => None,
                        Some(Some(p)) => Some(Some((p, false))),
                        Some(None) => match second {
                            None => None,
                            Some(Some(p)) => Some(Some((p, true))),
                            Some(None) => Some(None),
                        },
                    }
                }
            }
        },
    }
}

/// The cursor position after moving to `pos`: its line with the column
/// clamped to the line's characters, or the old position when the line does
/// not exist.
pub open spec fn landed(s: FileViewerState, lines: Seq<String>, pos: Position) -> Position {
    if pos.0 < lines.len() {
        (pos.0, clamp_col(lines, pos.0 as int, pos.1 as int) as usize)
    } else {
        s.spec_current_position()
    }
}

/// Computes `find_target`.
fn plan_find(state: &FileViewerState, lines: &[String], forward: bool) -> (r: Option<Option<(Position, bool)>>)
    requires
        state.top_line + state.cursor_line < usize::MAX,
        state.cursor_col < usize::MAX,
    ensures
        r == find_target(*state, lines@, forward),
{
    let pat = match &state.last_search_pattern {
        Some(p) => p.as_str(),
        None => return Some(None),
    };
    let start = state.current_position();
    let scope = state.find_scope;
    if pattern_is_multiline(pat) {
        let re = match multiline_regex(pat) {
            Some(re) => re,
            None => return Some(None),
        };
        let first = if forward {
            find_next_multiline_checked(lines, start, &re, false, scope)
        } else {
            find_prev_multiline_checked(lines, start, &re, false, scope)
        };
        match first {
            None => None,
            Some(Some(p)) => Some(Some((p, false))),
            Some(None) => {
                let second = if forward {
                    find_next_multiline_checked(lines, start, &re, true, scope)
                } else {
                    find_prev_multiline_checked(lines, start, &re, true, scope)
                };
                match second {
                    None => None,
                    Some(Some(p)) => Some(Some((p, false))),
                    Some(None) => Some(None),
                }
            },
        }
    } else {
        let re = match pattern_to_regex(pat, state.find_regex_mode) {
            Some(re) => re,
            None => return Some(None),
        };
        let first = if forward {
            find_next_checked(lines, start, &re, false, scope)
        } else {
            find_prev_checked(lines, start, &re, false, scope)
        };
        match first {
            None => None,
            Some(Some(p)) => Some(Some((p, false))),
            Some(None) => {
                let second = if forward {
                    find_next_checked(lines, start, &re, true, scope)
                } else {
                    find_prev_checked(lines, start, &re, true, scope)
                };
                match second {
                    None => None,
                    Some(Some(p)) => Some(Some((p, true))),
                    Some(None) => Some(None),
                }
            },
        }
    }
}

/// Computes `landed`.
fn landing(state: &FileViewerState, lines: &[String], pos: Position) -> (r: Position)
    requires
        state.top_line + state.cursor_line <= usize::MAX,
    ensures
        r == landed(*state, lines@, pos),
{
    if pos.0 < lines.len() {
        let n = lines[pos.0].as_str().unicode_len();
        (pos.0, if pos.1 < n { pos.1 } else { n })
    } else {
        state.current_position()
    }
}

/// Jump to `pos` when its line exists (see `set_cursor_position`).
fn move_to_position(state: &mut FileViewerState, pos: Position, lines: &[String], visible_lines: usize)
    requires
        old(state).top_line + visible_lines <= usize::MAX,
    ensures
        find_frame(*final(state), *old(state)),
        final(state).search_wrapped == old(state).search_wrapped,
        final(state).wrap_warning_pending == old(state).wrap_warning_pending,
        final(state).search_current_hit == old(state).search_current_hit,
        final(state).search_hit_count == old(state).search_hit_count,
        pos.0 < lines@.len() ==> ({
            let v = jump_view(old(state).top_line as int, visible_lines as int, pos.0 as int);
            &&& final(state).top_line == v.0
            &&& final(state).cursor_line == v.1
            &&& final(state).cursor_col == clamp_col(lines@, pos.0 as int, pos.1 as int)
            &&& final(state).desired_cursor_col == final(state).cursor_col
            &&& final(state).saved_absolute_cursor is None
            &&& final(state).saved_scroll_state is None
        }),
        pos.0 >= lines@.len() ==> ({
            &&& final(state).top_line == old(state).top_line
            &&& final(state).cursor_line == old(state).cursor_line
            &&& final(state).cursor_col == old(state).cursor_col
            &&& final(state).desired_cursor_col == old(state).desired_cursor_col
            &&& final(state).saved_absolute_cursor == old(state).saved_absolute_cursor
            &&& final(state).saved_scroll_state == old(state).saved_scroll_state
        }),
{
    if pos.0 < lines.len() {
        state.set_cursor_position(pos.0, pos.1, lines, visible_lines);
    }
    proof {
        reveal(find_frame);
    }
}

/// Record the outcome of a successful find step.
fn record_find(state: &mut FileViewerState, wrapped: bool, hits: (usize, usize))
    ensures
        find_frame(*final(state), *old(state)),
        final(state).top_line == old(state).top_line,
        final(state).cursor_line == old(state).cursor_line,
        final(state).cursor_col == old(state).cursor_col,
        final(state).desired_cursor_col == old(state).desired_cursor_col,
        final(state).saved_absolute_cursor == old(state).saved_absolute_cursor,
        final(state).saved_scroll_state == old(state).saved_scroll_state,
        final(state).search_wrapped == wrapped,
        final(state).wrap_warning_pending is None,
        final(state).search_current_hit == hits.0,
        final(state).search_hit_count == hits.1,
        final(state).needs_redraw,
{
    state.search_wrapped = wrapped;
    state.wrap_warning_pending = None;
    state.search_current_hit = hits.0;
    state.search_hit_count = hits.1;
    state.needs_redraw = true;
    proof {
        reveal(find_frame);
    }
}

/// Only ask for a redraw.
fn request_redraw(state: &mut FileViewerState)
    ensures
        find_frame(*final(state), *old(state)),
        final(state).top_line == old(state).top_line,
        final(state).cursor_line == old(state).cursor_line,
        final(state).cursor_col == old(state).cursor_col,
        final(state).desired_cursor_col == old(state).desired_cursor_col,
        final(state).saved_absolute_cursor == old(state).saved_absolute_cursor,
        final(state).saved_scroll_state == old(state).saved_scroll_state,
        final(state).search_wrapped == old(state).search_wrapped,
        final(state).wrap_warning_pending == old(state).wrap_warning_pending,
        final(state).search_current_hit == old(state).search_current_hit,
        final(state).search_hit_count == old(state).search_hit_count,
        final(state).needs_redraw,
{
    state.needs_redraw = true;
    proof {
        reveal(find_frame);
    }
}

/// Whether a find step can be carried out: the search can be done and, when
/// it lands somewhere, so can the count of hits there.
pub open spec fn find_step_ok(s: FileViewerState, lines: Seq<String>, forward: bool) -> bool {
    match find_target(s, lines, forward) {
        None => false,
        Some(None) => true,
        Some(Some((pos, w))) => search_hits(lines, landed(s, lines, pos), s.last_search_pattern->0@, s.find_regex_mode, s.find_scope) is Some,
    }
}

/// `new` is `old` after a find step (forward or backward) that could be
/// carried out (see `find_step_ok`): at the match the step lands on (see
/// `find_target`), the cursor jumps there (see `set_cursor_position`) when
/// its line exists; the search records whether it wrapped, drops the pending
/// wrap warning and counts the hits at the landing position (see
/// `search_hits`).  Without a match only a redraw is requested.
pub open spec fn found(new: FileViewerState, old: FileViewerState, lines: Seq<String>, visible_lines: usize, forward: bool) -> bool {
    &&& find_frame(new, old)
    &&& new.needs_redraw
    &&& match find_target(old, lines, forward) {
        Some(Some((pos, w))) => {
            let h = search_hits(lines, landed(old, lines, pos), old.last_search_pattern->0@, old.find_regex_mode, old.find_scope)->0;
            &&& (pos.0 < lines.len() ==> ({
                let v = jump_view(old.top_line as int, visible_lines as int, pos.0 as int);
                &&& new.top_line == v.0
                &&& new.cursor_line == v.1
                &&& new.cursor_col == clamp_col(lines, pos.0 as int, pos.1 as int)
                &&& new.desired_cursor_col == new.cursor_col
                &&& new.saved_absolute_cursor is None
                &&& new.saved_scroll_state is None
            }))
            &&& (pos.0 >= lines.len() ==> unmoved(new, old))
            &&& new.search_wrapped == w
            &&& new.wrap_warning_pending is None
            &&& new.search_current_hit == h.0
            &&& new.search_hit_count == h.1
        },
        _ => unmoved(new, old) && search_unchanged(new, old),
    }
}

/// The cursor, view and saved off-screen cursor are unchanged.
pub open spec fn unmoved(new: FileViewerState, old: FileViewerState) -> bool {
    &&& new.top_line == old.top_line
    &&& new.cursor_line == old.cursor_line
    &&& new.cursor_col == old.cursor_col
    &&& new.desired_cursor_col == old.desired_cursor_col
    &&& new.saved_absolute_cursor == old.saved_absolute_cursor
    &&& new.saved_scroll_state == old.saved_scroll_state
}

/// The search status is unchanged.
pub open spec fn search_unchanged(new: FileViewerState, old: FileViewerState) -> bool {
    &&& new.search_wrapped == old.search_wrapped
    &&& new.wrap_warning_pending == old.wrap_warning_pending
    &&& new.search_current_hit == old.search_current_hit
    &&& new.search_hit_count == old.search_hit_count
}

/// One find step; returns whether it could be carried out (see
/// `find_step_ok`); when not, only a redraw is requested.
fn find_step(state: &mut FileViewerState, lines: &[String], visible_lines: usize, forward: bool) -> (done: bool)
    requires
        old(state).top_line + old(state).cursor_line < usize::MAX,
        old(state).cursor_col < usize::MAX,
        old(state).top_line + visible_lines <= usize::MAX,
    ensures
        done == find_step_ok(*old(state), lines@, forward),
        done ==> found(*final(state), *old(state), lines@, visible_lines, forward),
        !done ==> find_frame(*final(state), *old(state)) && final(state).needs_redraw
            && unmoved(*final(state), *old(state)) && search_unchanged(*final(state), *old(state)),
{
    let ghost s0 = *state;
    let plan = plan_find(state, lines, forward);
    match plan {
        None => {
            request_redraw(state);
            false
        },
        Some(None) => {
            request_redraw(state);
            true
        },
        Some(Some((pos, w))) => {
            let land = landing(state, lines, pos);
            let hits = match &state.last_search_pattern {
                Some(p) => calculate_search_hits_checked(lines, land, p.as_str(), state.find_regex_mode, state.find_scope),
                None => None,
            };
            match hits {
                None => {
                    request_redraw(state);
                    false
                },
                Some(h) => {
                    move_to_position(state, pos, lines, visible_lines);
                    let ghost s1 = *state;
                    record_find(state, w, h);
                    proof {
                        lemma_find_frame_trans(*state, s1, s0);
                    }
                    true
                },
            }
        },
    }
}

/// Find the next occurrence of the last search (see `found`, with
/// `forward`); returns whether the step could be carried out.
pub fn find_next_occurrence(state: &mut FileViewerState, lines: &[String], visible_lines: usize) -> (done: bool)
    requires
        old(state).top_line + old(state).cursor_line < usize::MAX,
        old(state).cursor_col < usize::MAX,
        old(state).top_line + visible_lines <= usize::MAX,
    ensures
        done == find_step_ok(*old(state), lines@, true),
        done ==> found(*final(state), *old(state), lines@, visible_lines, true),
        !done ==> find_frame(*final(state), *old(state)) && final(state).needs_redraw
            && unmoved(*final(state), *old(state)) && search_unchanged(*final(state), *old(state)),
{
    find_step(state, lines, visible_lines, true)
}

/// Find the previous occurrence of the last search (see `found`, backward);
/// returns whether the step could be carried out.
pub fn find_prev_occurrence(state: &mut FileViewerState, lines: &[String], visible_lines: usize) -> (done: bool)
    requires
        old(state).top_line + old(state).cursor_line < usize::MAX,
        old(state).cursor_col < usize::MAX,
        old(state).top_line + visible_lines <= usize::MAX,
    ensures
        done == find_step_ok(*old(state), lines@, false),
        done ==> found(*final(state), *old(state), lines@, visible_lines, false),
        !done ==> find_frame(*final(state), *old(state)) && final(state).needs_redraw
            && unmoved(*final(state), *old(state)) && search_unchanged(*final(state), *old(state)),
{
    find_step(state, lines, visible_lines, false)
}

/// Set the hit counter.
fn set_hits(state: &mut FileViewerState, hits: (usize, usize))
    ensures
        find_frame(*final(state), *old(state)),
        unmoved(*final(state), *old(state)),
        final(state).search_wrapped == old(state).search_wrapped,
        final(state).wrap_warning_pending == old(state).wrap_warning_pending,
        final(state).needs_redraw == old(state).needs_redraw,
        final(state).search_current_hit == hits.0,
        final(state).search_hit_count == hits.1,
        *final(state) == (FileViewerState { search_current_hit: hits.0, search_hit_count: hits.1, ..*old(state) }),
{
    state.search_current_hit = hits.0;
    state.search_hit_count = hits.1;
    proof {
        reveal(find_frame);
    }
}

/// `n` is `o` with the hit counter refreshed for the cursor position (see
/// `update_search_hit_count`; `done` tells whether the count could be done).
pub open spec fn hits_counted(o: FileViewerState, n: FileViewerState, lines: Seq<String>, done: bool) -> bool {
    match o.last_search_pattern {
        Some(p) => match search_hits(lines, o.spec_current_position(), p@, o.find_regex_mode, o.find_scope) {
            Some(h) => done && n == (FileViewerState { search_current_hit: h.0 as usize, search_hit_count: h.1 as usize, ..o }),
            None => !done && n == o,
        },
        None => done && n == (FileViewerState { search_current_hit: 0, search_hit_count: 0, ..o }),
    }
}

/// What `hits_counted` leaves alone.
pub(crate) proof fn lemma_hits_counted_frame(o: FileViewerState, n: FileViewerState, lines: Seq<String>, done: bool)
    requires
        hits_counted(o, n, lines, done),
    ensures
        find_frame(n, o),
        unmoved(n, o),
        n.search_wrapped == o.search_wrapped,
        n.wrap_warning_pending == o.wrap_warning_pending,
        n.needs_redraw == o.needs_redraw,
        match o.last_search_pattern {
            Some(p) => match search_hits(lines, o.spec_current_position(), p@, o.find_regex_mode, o.find_scope) {
                Some(h) => done && n.search_current_hit == h.0 && n.search_hit_count == h.1,
                None => !done && n.search_current_hit == o.search_current_hit && n.search_hit_count == o.search_hit_count,
            },
            None => done && n.search_current_hit == 0 && n.search_hit_count == 0,
        },
{
    reveal(find_frame);
    if let Some(p) = o.last_search_pattern {
        if let Some(h) = search_hits(lines, o.spec_current_position(), p@, o.find_regex_mode, o.find_scope) {
            lemma_search_hits_range(lines, o.spec_current_position(), p@, o.find_regex_mode, o.find_scope);
        }
    }
}

/// Refresh the hit counter (see `hits_counted`).
pub fn count_hits(state: &mut FileViewerState, lines: &[String]) -> (done: bool)
    requires
        old(state).top_line + old(state).cursor_line <= usize::MAX,
    ensures
        hits_counted(*old(state), *final(state), lines@, done),
{
    let hits = match &state.last_search_pattern {
        Some(p) => calculate_search_hits_checked(lines, state.current_position(), p.as_str(), state.find_regex_mode, state.find_scope),
        None => Some((0, 0)),
    };
    match hits {
        Some(h) => {
            set_hits(state, h);
            true
        },
        None => false,
    }
}

/// Refresh the hit counter for the cursor position: the counts of
/// `search_hits` for the last search, or zeros when there is none.  Returns
/// whether the count could be done; when not, nothing changes.
pub fn update_search_hit_count(state: &mut FileViewerState, lines: &[String]) -> (done: bool)
    requires
        old(state).top_line + old(state).cursor_line <= usize::MAX,
    ensures
        find_frame(*final(state), *old(state)),
        unmoved(*final(state), *old(state)),
        final(state).search_wrapped == old(state).search_wrapped,
        final(state).wrap_warning_pending == old(state).wrap_warning_pending,
        final(state).needs_redraw == old(state).needs_redraw,
        match old(state).last_search_pattern {
            Some(p) => match search_hits(lines@, old(state).spec_current_position(), p@, old(state).find_regex_mode, old(state).find_scope) {
                Some(h) => done && final(state).search_current_hit == h.0 && final(state).search_hit_count == h.1,
                None => !done && final(state).search_current_hit == old(state).search_current_hit
                    && final(state).search_hit_count == old(state).search_hit_count,
            },
            None => done && final(state).search_current_hit == 0 && final(state).search_hit_count == 0,
        },
{
    let ghost o = *state;
    let done = count_hits(state, lines);
    proof {
        lemma_hits_counted_frame(o, *state, lines@, done);
    }
    done
}

// ---------------------------------------------------------------------------
// Multi-line find wraps around
// ---------------------------------------------------------------------------

/// Start of the first match span.
pub open spec fn first_start(sp: Seq<(usize, usize)>) -> int {
    sp[0].0 as int
}

/// Start of the last match span.
pub open spec fn last_start(sp: Seq<(usize, usize)>) -> int {
    sp.last().0 as int
}

/// Find next wraps around for a multi-line pattern: when nothing matches
/// after the cursor but the text of the search range before it holds a
/// match, find next lands on the first such match (no wrap is reported for
/// multi-line patterns).
pub proof fn lemma_find_next_wraps_multiline(s: FileViewerState, lines: Seq<String>, pat: String, p: Position)
    requires
        s.last_search_pattern == Some(pat),
        exists|i: int| escape_at(pat@, i),
        regex_compiles(multi_line_source(pat@)),
        next_multi_match(lines, s.spec_current_position(), multi_line_source(pat@), false, s.find_scope) == Some(None::<Position>),
        ({
            let (min_line, max_line) = crate::find::search_lines(lines.len() as int, s.find_scope);
            let (j, starts) = crate::search::joined_of(lines, min_line, max_line);
            let jb = crate::text::byte_len(j) as int;
            match crate::search::start_byte(lines, starts, min_line, max_line, s.spec_current_position(), 1, 0) {
                Some(sb) => match crate::search::joined_spans(j, 0, crate::find::min2(sb, jb), multi_line_source(pat@)) {
                    Some(sp) => sp.len() > 0
                        && crate::find::offset_position(first_start(sp), starts, lines, min_line) == Some(p),
                    None => false,
                },
                None => false,
            }
        }),
    ensures
        find_target(s, lines, true) == Some(Some((p, false))),
{
    let src = multi_line_source(pat@);
    assert(next_multi_match(lines, s.spec_current_position(), src, true, s.find_scope) == Some(Some(p)));
}

/// Find previous wraps around for a multi-line pattern: when nothing
/// matches before the cursor but the text of the search range after it
/// holds a match, find previous lands on the last such match.
pub proof fn lemma_find_prev_wraps_multiline(s: FileViewerState, lines: Seq<String>, pat: String, p: Position)
    requires
        s.last_search_pattern == Some(pat),
        exists|i: int| escape_at(pat@, i),
        regex_compiles(multi_line_source(pat@)),
        prev_multi_match(lines, s.spec_current_position(), multi_line_source(pat@), false, s.find_scope) == Some(None::<Position>),
        ({
            let (min_line, max_line) = crate::find::search_lines(lines.len() as int, s.find_scope);
            let (j, starts) = crate::search::joined_of(lines, min_line, max_line);
            let jb = crate::text::byte_len(j) as int;
            match crate::search::start_byte(lines, starts, min_line, max_line, s.spec_current_position(), 0, jb) {
                Some(sb) => sb < jb && match crate::search::joined_spans(j, sb, jb, multi_line_source(pat@)) {
                    Some(sp) => sp.len() > 0 && sb + last_start(sp) <= usize::MAX
                        && crate::find::offset_position(sb + last_start(sp), starts, lines, min_line) == Some(p),
                    None => false,
                },
                None => false,
            }
        }),
    ensures
        find_target(s, lines, false) == Some(Some((p, false))),
{
    let src = multi_line_source(pat@);
    assert(prev_multi_match(lines, s.spec_current_position(), src, true, s.find_scope) == Some(Some(p)));
}

/// Find next wraps around for a single-line pattern: when nothing matches
/// after the cursor but a line of the search range from its first line up
/// to the cursor's line holds a match, find next lands on the first such
/// match and reports the wrap.
pub proof fn lemma_find_next_wraps(s: FileViewerState, lines: Seq<String>, pat: String, p: Position)
    requires
        s.last_search_pattern == Some(pat),
        !(exists|i: int| escape_at(pat@, i)),
        regex_compiles(single_line_source(pat@, s.find_regex_mode)),
        next_match(lines, s.spec_current_position(), single_line_source(pat@, s.find_regex_mode), false, s.find_scope)
            == Some(None::<Position>),
        ({
            let (min_line, max_line) = crate::find::search_lines(lines.len() as int, s.find_scope);
            let sl = s.spec_current_position().0 as int;
            crate::search::forward_from(lines, single_line_source(pat@, s.find_regex_mode), s.find_scope, min_line,
                crate::find::min2(sl, max_line) + 1) == Some(Some(p))
        }),
    ensures
        find_target(s, lines, true) == Some(Some((p, true))),
{
}

/// Find previous wraps around for a single-line pattern: when nothing
/// matches before the cursor but a line of the search range from the
/// cursor's line to its last line holds a match, find previous lands on the
/// last such match and reports the wrap.
pub proof fn lemma_find_prev_wraps(s: FileViewerState, lines: Seq<String>, pat: String, p: Position)
    requires
        s.last_search_pattern == Some(pat),
        !(exists|i: int| escape_at(pat@, i)),
        regex_compiles(single_line_source(pat@, s.find_regex_mode)),
        prev_match(lines, s.spec_current_position(), single_line_source(pat@, s.find_regex_mode), false, s.find_scope)
            == Some(None::<Position>),
        ({
            let (min_line, max_line) = crate::find::search_lines(lines.len() as int, s.find_scope);
            let sl = s.spec_current_position().0 as int;
            crate::search::backward_from(lines, single_line_source(pat@, s.find_regex_mode), s.find_scope, sl,
                max_line + 1) == Some(Some(p))
        }),
    ensures
        find_target(s, lines, false) == Some(Some((p, true))),
{
}

} // verus!

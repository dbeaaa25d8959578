//! Cursor, viewport and selection state of the file viewer.
use vstd::prelude::*;
use crate::settings::Settings;
use crate::undo::UndoHistory;
use crate::coordinates::{
    as_ints, calculate_text_width, calculate_visual_lines_to_cursor, calculate_word_wrap_points,
    gutter_width, lines_count_ok, text_area_width, visual_lines_in, visual_width, visual_width_up_to,
    word_wrap_points,
};
use crate::text::{byte_len, byte_length, lines_fit, prefix_width, seq_width, text_fits};

verus! {

/// Cursor or selection position: (line, column).
pub type Position = (usize, usize);

/// Position order: by line, then by column.
pub open spec fn pos_le(a: Position, b: Position) -> bool {
    a.0 < b.0 || (a.0 == b.0 && a.1 <= b.1)
}

/// State of the find prompt beyond the typed pattern.
#[derive(Debug, Clone, PartialEq, Eq)]
pub struct FindPrompt {
    /// Cursor within the typed pattern (character index).
    pub cursor_pos: usize,
    /// Selected characters of the typed pattern (start, end).
    pub selection: Option<(usize, usize)>,
    /// Whether the typed pattern was rejected as an invalid regex.
    pub error: bool,
    /// Search pattern from before the prompt opened (restored by Esc).
    pub saved_search_pattern: Option<String>,
    /// The prompt was opened by the replace key (replace follows on Enter).
    pub via_replace: bool,
    /// Search mode the active search was made with.
    pub last_regex_mode: bool,
    /// Replace prompt open.
    pub replace_active: bool,
    /// Text typed at the replace prompt.
    pub replace_pattern: String,
    /// Cursor within `replace_pattern` (character index).
    pub replace_cursor_pos: usize,
    /// Selected characters of the replacement text (start, end).
    pub replace_selection: Option<(usize, usize)>,
}

/// State of one open file's view.
pub struct FileViewerState<'a> {
    pub top_line: usize,
    pub cursor_line: usize,
    pub cursor_col: usize,
    /// Column that vertical movement tries to return to.
    pub desired_cursor_col: usize,
    pub selection_start: Option<Position>,
    pub selection_end: Option<Position>,
    /// Fixed end of a selection that is being extended.
    pub selection_anchor: Option<Position>,
    /// Column (block) selection instead of line-wise selection.
    pub block_selection: bool,
    /// Extra cursors of multi-cursor mode.
    pub multi_cursors: Vec<Position>,
    pub cursor_blink_state: bool,
    /// Time of the last blink toggle, in milliseconds on the caller's clock.
    pub last_blink_time: Option<u64>,
    pub needs_redraw: bool,
    pub needs_footer_redraw: bool,
    pub modified: bool,
    pub term_width: u16,
    pub undo_history: UndoHistory,
    pub settings: &'a Settings,
    pub mouse_dragging: bool,
    /// Absolute cursor line while the cursor is scrolled off screen.
    pub saved_absolute_cursor: Option<usize>,
    /// (top_line, cursor_line) from when the cursor first left the screen.
    pub saved_scroll_state: Option<(usize, usize)>,
    pub drag_source_start: Option<Position>,
    pub drag_source_end: Option<Position>,
    pub drag_text: Option<String>,
    pub dragging_selection_active: bool,
    pub drag_target: Option<Position>,
    pub drag_click_logical_pos: Option<Position>,
    pub find_active: bool,
    /// Regex search (true) or wildcard search (false).
    pub find_regex_mode: bool,
    /// Filter mode: only lines with hits (and context) are shown.
    pub filter_active: bool,
    pub filter_context_before: usize,
    pub filter_context_after: usize,
    pub find_pattern: String,
    pub find_history: Vec<String>,
    pub find_history_index: Option<usize>,
    pub last_search_pattern: Option<String>,
    pub search_wrapped: bool,
    /// Pending wrap-around warning ("next" or "prev").
    pub wrap_warning_pending: Option<String>,
    /// Range that searches are limited to.
    pub find_scope: Option<(Position, Position)>,
    pub search_hit_count: usize,
    pub search_current_hit: usize,
    /// Horizontal scroll (columns) when wrapping is off.
    pub horizontal_scroll_offset: usize,
    /// Runtime override of `settings.line_wrapping`.
    pub line_wrapping_override: Option<bool>,
    pub is_read_only: bool,
    pub markdown_rendered: bool,
    pub rendered_lines: Vec<String>,
    pub rendered_selection_start: Option<(usize, usize)>,
    pub rendered_selection_end: Option<(usize, usize)>,
    pub rendered_mouse_dragging: bool,
    /// At a wrap point: whether the cursor is shown at the end of the
    /// previous segment (true) or the start of the next one.
    pub cursor_at_wrap_end: bool,
    pub status_message: Option<String>,
    /// Go-to-line prompt open.
    pub goto_line_active: bool,
    /// Text typed at the go-to-line prompt.
    pub goto_line_input: String,
    /// Cursor within `goto_line_input` (character index).
    pub goto_line_cursor_pos: usize,
    /// Whether typing at the prompt has started (the first key replaces the
    /// pre-filled value).
    pub goto_line_typing_started: bool,
    /// Find and replace prompt state.
    pub find_prompt: FindPrompt,
}

impl<'a> FileViewerState<'a> {
    /// Fresh state: cursor and viewport at the top, nothing selected.
    pub fn new(term_width: u16, undo_history: UndoHistory, settings: &'a Settings) -> (s: Self)
        ensures
            Self::is_new_state(s, term_width, undo_history, settings),
    {
        FileViewerState {
            top_line: 0,
            cursor_line: 0,
            cursor_col: 0,
            desired_cursor_col: 0,
            selection_start: None,
            selection_end: None,
            selection_anchor: None,
            block_selection: false,
            multi_cursors: Vec::new(),
            cursor_blink_state: true,
            last_blink_time: None,
            needs_redraw: true,
            needs_footer_redraw: false,
            modified: false,
            term_width,
            undo_history,
            settings,
            mouse_dragging: false,
            saved_absolute_cursor: None,
            saved_scroll_state: None,
            drag_source_start: None,
            drag_source_end: None,
            drag_text: None,
            dragging_selection_active: false,
            drag_target: None,
            drag_click_logical_pos: None,
            find_active: false,
            find_regex_mode: true,
            filter_active: false,
            filter_context_before: settings.filter_context_before,
            filter_context_after: settings.filter_context_after,
            find_pattern: String::new(),
            find_history: Vec::new(),
            find_history_index: None,
            last_search_pattern: None,
            search_wrapped: false,
            wrap_warning_pending: None,
            find_scope: None,
            search_hit_count: 0,
            search_current_hit: 0,
            horizontal_scroll_offset: 0,
            line_wrapping_override: None,
            is_read_only: false,
            markdown_rendered: false,
            rendered_lines: Vec::new(),
            rendered_selection_start: None,
            rendered_selection_end: None,
            rendered_mouse_dragging: false,
            cursor_at_wrap_end: false,
            status_message: None,
            goto_line_active: false,
            goto_line_input: String::new(),
            goto_line_cursor_pos: 0,
            goto_line_typing_started: false,
            find_prompt: FindPrompt {
                cursor_pos: 0,
                selection: None,
                error: false,
                saved_search_pattern: None,
                via_replace: false,
                last_regex_mode: true,
                replace_active: false,
                replace_pattern: String::new(),
                replace_cursor_pos: 0,
                replace_selection: None,
            },
        }
    }

    /// The state `new` creates: cursor and viewport at the top, nothing
    /// selected, no search, wrapping taken from the settings.
    pub open spec fn is_new_state(s: Self, term_width: u16, undo_history: UndoHistory, settings: &'a Settings) -> bool {
        &&& s.top_line == 0 && s.cursor_line == 0 && s.cursor_col == 0 && s.desired_cursor_col == 0
        &&& s.selection_start is None && s.selection_end is None && s.selection_anchor is None
        &&& !s.block_selection && s.multi_cursors@.len() == 0
        &&& s.cursor_blink_state && s.last_blink_time is None
        &&& s.needs_redraw && !s.needs_footer_redraw && !s.modified
        &&& s.term_width == term_width && s.undo_history == undo_history && s.settings == settings
        &&& !s.mouse_dragging
        &&& s.saved_absolute_cursor is None && s.saved_scroll_state is None
        &&& s.drag_source_start is None && s.drag_source_end is None && s.drag_text is None
        &&& !s.dragging_selection_active && s.drag_target is None && s.drag_click_logical_pos is None
        &&& !s.find_active && s.find_regex_mode && !s.filter_active
        &&& s.filter_context_before == settings.filter_context_before
        &&& s.filter_context_after == settings.filter_context_after
        &&& s.find_pattern@.len() == 0 && s.find_history@.len() == 0 && s.find_history_index is None
        &&& s.last_search_pattern is None && !s.search_wrapped && s.wrap_warning_pending is None
        &&& s.find_scope is None && s.search_hit_count == 0 && s.search_current_hit == 0
        &&& s.horizontal_scroll_offset == 0 && s.line_wrapping_override is None
        &&& !s.is_read_only && !s.markdown_rendered && s.rendered_lines@.len() == 0
        &&& s.rendered_selection_start is None && s.rendered_selection_end is None
        &&& !s.rendered_mouse_dragging && !s.cursor_at_wrap_end && s.status_message is None
        &&& !s.goto_line_active && s.goto_line_input@.len() == 0 && s.goto_line_cursor_pos == 0
        &&& !s.goto_line_typing_started
        &&& s.find_prompt.cursor_pos == 0 && s.find_prompt.selection is None && !s.find_prompt.error
        &&& s.find_prompt.saved_search_pattern is None && !s.find_prompt.via_replace && s.find_prompt.last_regex_mode
        &&& !s.find_prompt.replace_active && s.find_prompt.replace_pattern@.len() == 0 && s.find_prompt.replace_cursor_pos == 0
    }

    /// Cursor position relative to the document, from the viewport.
    pub open spec fn spec_current_position(&self) -> Position {
        ((self.top_line + self.cursor_line) as usize, self.cursor_col)
    }

    /// Absolute cursor line: the saved line while off screen, otherwise
    /// `top_line + cursor_line`.
    pub open spec fn spec_absolute_line(&self) -> int {
        match self.saved_absolute_cursor {
            Some(l) => l as int,
            None => self.top_line + self.cursor_line,
        }
    }

    /// Whether long lines wrap (runtime override first, then settings).
    pub open spec fn spec_wrapping(&self) -> bool {
        match self.line_wrapping_override {
            Some(b) => b,
            None => self.settings.line_wrapping,
        }
    }

    /// `(top_line + cursor_line, cursor_col)`.
    pub fn current_position(&self) -> (p: Position)
        requires
            self.top_line + self.cursor_line <= usize::MAX,
        ensures
            p == self.spec_current_position(),
    {
        (self.top_line + self.cursor_line, self.cursor_col)
    }

    /// Absolute cursor line (see `spec_absolute_line`).
    pub fn absolute_line(&self) -> (l: usize)
        requires
            self.top_line + self.cursor_line <= usize::MAX,
        ensures
            l == self.spec_absolute_line(),
    {
        match self.saved_absolute_cursor {
            Some(l) => l,
            None => self.top_line + self.cursor_line,
        }
    }

    /// Whether line wrapping is in effect.
    pub fn is_line_wrapping_enabled(&self) -> (b: bool)
        ensures
            b == self.spec_wrapping(),
    {
        match self.line_wrapping_override {
            Some(b) => b,
            None => self.settings.line_wrapping,
        }
    }

    /// Whether both ends of a selection are set.
    pub open spec fn spec_has_selection(&self) -> bool {
        self.selection_start is Some && self.selection_end is Some
    }

    /// Whether both ends of a selection are set.
    pub fn has_selection(&self) -> (b: bool)
        ensures
            b == self.spec_has_selection(),
    {
        self.selection_start.is_some() && self.selection_end.is_some()
    }

    /// Anchor a new selection at the cursor, unless one is already anchored.
    pub fn start_selection(&mut self)
        requires
            old(self).top_line + old(self).cursor_line <= usize::MAX,
        ensures
            old(self).selection_anchor is None ==> {
                &&& final(self).selection_anchor == Some(old(self).spec_current_position())
                &&& final(self).selection_start == Some(old(self).spec_current_position())
                &&& final(self).selection_end == Some(old(self).spec_current_position())
                &&& *final(self) == (FileViewerState {
                    selection_anchor: final(self).selection_anchor,
                    selection_start: final(self).selection_start,
                    selection_end: final(self).selection_end,
                    ..*old(self)
                })
            },
            old(self).selection_anchor is Some ==> *final(self) == *old(self),
    {
        if self.selection_anchor.is_none() {
            self.selection_anchor = Some(self.current_position());
            self.selection_start = Some(self.current_position());
            self.selection_end = Some(self.current_position());
        }
    }

    /// Selection ends after moving the cursor while extending from `anchor`:
    /// block selections span the line range and the column range
    /// independently; line-wise selections run from the earlier to the later
    /// position.
    pub open spec fn selection_from_anchor(anchor: Position, cursor: Position, block: bool) -> (Position, Position) {
        if block {
            (
                (if anchor.0 <= cursor.0 { anchor.0 } else { cursor.0 }, if anchor.1 <= cursor.1 { anchor.1 } else { cursor.1 }),
                (if anchor.0 <= cursor.0 { cursor.0 } else { anchor.0 }, if anchor.1 <= cursor.1 { cursor.1 } else { anchor.1 }),
            )
        } else if pos_le(anchor, cursor) {
            (anchor, cursor)
        } else {
            (cursor, anchor)
        }
    }

    /// Extend the selection from its anchor to the cursor.
    #[verifier::rlimit(50)]
    pub fn update_selection(&mut self)
        requires
            old(self).top_line + old(self).cursor_line <= usize::MAX,
        ensures
            match old(self).selection_anchor {
                Some(anchor) => {
                    let r = Self::selection_from_anchor(anchor, old(self).spec_current_position(), old(self).block_selection);
                    &&& final(self).selection_start == Some(r.0)
                    &&& final(self).selection_end == Some(r.1)
                },
                None => {
                    &&& final(self).selection_start == old(self).selection_start
                    &&& final(self).selection_end == Some(old(self).spec_current_position())
                },
            },
            *final(self) == (FileViewerState {
                selection_start: final(self).selection_start,
                selection_end: final(self).selection_end,
                needs_redraw: true,
                ..*old(self)
            }),
    {
        let cursor = self.current_position();
        let (start, end) = match self.selection_anchor {
            Some(anchor) => {
                if self.block_selection {
                    let (start_line, end_line) = if anchor.0 <= cursor.0 {
                        (anchor.0, cursor.0)
                    } else {
                        (cursor.0, anchor.0)
                    };
                    let (start_col, end_col) = if anchor.1 <= cursor.1 {
                        (anchor.1, cursor.1)
                    } else {
                        (cursor.1, anchor.1)
                    };
                    (Some((start_line, start_col)), Some((end_line, end_col)))
                } else if anchor.0 < cursor.0 || (anchor.0 == cursor.0 && anchor.1 <= cursor.1) {
                    (Some(anchor), Some(cursor))
                } else {
                    (Some(cursor), Some(anchor))
                }
            },
            None => (self.selection_start, Some(cursor)),
        };
        self.selection_start = start;
        self.selection_end = end;
        self.needs_redraw = true;
    }

    /// Drop the selection (and its anchor and block mode) if there is one.
    pub fn clear_selection(&mut self)
        ensures
            old(self).selection_start is Some || old(self).selection_end is Some ==> *final(self) == (FileViewerState {
                selection_start: None,
                selection_end: None,
                selection_anchor: None,
                block_selection: false,
                needs_redraw: true,
                ..*old(self)
            }),
            old(self).selection_start is None && old(self).selection_end is None ==> *final(self) == *old(self),
    {
        if self.selection_start.is_some() || self.selection_end.is_some() {
            self.selection_start = None;
            self.selection_end = None;
            self.selection_anchor = None;
            self.block_selection = false;
            self.needs_redraw = true;
        }
    }

    /// Normalized selection (start before end), when both ends are set.
    pub open spec fn spec_selection_range(&self) -> Option<(Position, Position)> {
        match (self.selection_start, self.selection_end) {
            (Some(s), Some(e)) => if pos_le(s, e) { Some((s, e)) } else { Some((e, s)) },
            _ => None,
        }
    }

    /// The selection with its ends in document order.
    pub fn selection_range(&self) -> (r: Option<(Position, Position)>)
        ensures
            r == self.spec_selection_range(),
    {
        if let (Some(s), Some(e)) = (self.selection_start, self.selection_end) {
            let (start, end) = if s.0 < e.0 || (s.0 == e.0 && s.1 <= e.1) {
                (s, e)
            } else {
                (e, s)
            };
            Some((start, end))
        } else {
            None
        }
    }

    /// Whether `pos` lies in the selection: in a block selection the line
    /// must be in the line range and the column in `[start col, end col)`;
    /// in a line-wise selection the position must lie in `[start, end)`.
    pub open spec fn spec_point_in_selection(&self, pos: Position) -> bool {
        match self.spec_selection_range() {
            Some((start, end)) => {
                let (l, c) = pos;
                if l < start.0 || l > end.0 {
                    false
                } else if self.block_selection {
                    c >= start.1 && c < end.1
                } else if start.0 == end.0 {
                    c >= start.1 && c < end.1
                } else if l == start.0 {
                    c >= start.1
                } else if l == end.0 {
                    c < end.1
                } else {
                    true
                }
            },
            None => false,
        }
    }

    /// Whether `pos` lies inside the selection.
    pub fn is_point_in_selection(&self, pos: Position) -> (b: bool)
        ensures
            b == self.spec_point_in_selection(pos),
    {
        if let Some((start, end)) = self.selection_range() {
            let (l, c) = pos;
            let (sl, sc) = start;
            let (el, ec) = end;
            if self.block_selection {
                if l < sl || l > el {
                    return false;
                }
                c >= sc && c < ec
            } else {
                if l < sl || l > el {
                    return false;
                }
                if sl == el {
                    return c >= sc && c < ec;
                }
                if l == sl {
                    return c >= sc;
                }
                if l == el {
                    return c < ec;
                }
                true
            }
        } else {
            false
        }
    }

    /// Start dragging the selected text (when there is a selection).
    pub fn start_drag(&mut self)
        ensures
            match old(self).spec_selection_range() {
                Some((start, end)) => *final(self) == (FileViewerState {
                    drag_source_start: Some(start),
                    drag_source_end: Some(end),
                    dragging_selection_active: true,
                    drag_target: None,
                    ..*old(self)
                }),
                None => *final(self) == *old(self),
            },
    {
        if let Some((start, end)) = self.selection_range() {
            self.drag_source_start = Some(start);
            self.drag_source_end = Some(end);
            self.dragging_selection_active = true;
            self.drag_target = None;
        }
    }

    /// Forget all drag state.
    pub fn clear_drag(&mut self)
        ensures
            *final(self) == (FileViewerState {
                drag_source_start: None,
                drag_source_end: None,
                drag_text: None,
                dragging_selection_active: false,
                drag_target: None,
                drag_click_logical_pos: None,
                ..*old(self)
            }),
    {
        self.drag_source_start = None;
        self.drag_source_end = None;
        self.drag_text = None;
        self.dragging_selection_active = false;
        self.drag_target = None;
        self.drag_click_logical_pos = None;
    }

    /// Whether extra cursors are active.
    pub fn has_multi_cursors(&self) -> (b: bool)
        ensures
            b == (self.multi_cursors@.len() > 0),
    {
        !self.multi_cursors.is_empty()
    }

    /// Remove all extra cursors.
    pub fn clear_multi_cursors(&mut self)
        ensures
            old(self).multi_cursors@.len() > 0 ==> *final(self) == (FileViewerState {
                multi_cursors: final(self).multi_cursors,
                needs_redraw: true,
                ..*old(self)
            }) && final(self).multi_cursors@.len() == 0,
            old(self).multi_cursors@.len() == 0 ==> *final(self) == *old(self),
    {
        if !self.multi_cursors.is_empty() {
            self.multi_cursors.clear();
            self.needs_redraw = true;
        }
    }

    /// Whether editing is blocked (read-only file or rendered markdown view).
    pub fn is_editing_blocked(&self) -> (b: bool)
        ensures
            b == (self.is_read_only || self.markdown_rendered),
    {
        self.is_read_only || self.markdown_rendered
    }

    /// Drop the selection of the rendered view.
    pub fn clear_rendered_selection(&mut self)
        ensures
            *final(self) == (FileViewerState {
                rendered_selection_start: None,
                rendered_selection_end: None,
                rendered_mouse_dragging: false,
                ..*old(self)
            }),
    {
        self.rendered_selection_start = None;
        self.rendered_selection_end = None;
        self.rendered_mouse_dragging = false;
    }

    /// The rendered-view selection in document order, when both ends are set.
    pub fn rendered_selection_normalized(&self) -> (r: Option<((usize, usize), (usize, usize))>)
        ensures
            r == (match (self.rendered_selection_start, self.rendered_selection_end) {
                (Some(s), Some(e)) => if pos_le(s, e) { Some((s, e)) } else { Some((e, s)) },
                _ => None,
            }),
    {
        let start = match self.rendered_selection_start {
            Some(p) => p,
            None => return None,
        };
        let end = match self.rendered_selection_end {
            Some(p) => p,
            None => return None,
        };
        if start.0 < end.0 || (start.0 == end.0 && start.1 <= end.1) {
            Some((start, end))
        } else {
            Some((end, start))
        }
    }

    /// Flip line wrapping; turning it on resets the horizontal scroll.
    pub fn toggle_line_wrapping(&mut self)
        ensures
            final(self).line_wrapping_override == Some(!old(self).spec_wrapping()),
            final(self).spec_wrapping() == !old(self).spec_wrapping(),
            *final(self) == (FileViewerState {
                line_wrapping_override: Some(!old(self).spec_wrapping()),
                horizontal_scroll_offset: if old(self).spec_wrapping() { old(self).horizontal_scroll_offset } else { 0 },
                ..*old(self)
            }),
    {
        let current = self.is_line_wrapping_enabled();
        self.line_wrapping_override = Some(!current);
        if !current {
            self.horizontal_scroll_offset = 0;
        }
    }

    /// Clamp the cursor column to the byte length of the cursor's line.
    pub fn adjust_cursor_col(&mut self, lines: &[&str])
        requires
            old(self).top_line + old(self).cursor_line <= usize::MAX,
        ensures
            ({
                let abs = old(self).spec_absolute_line();
                if 0 <= abs < lines@.len() && old(self).cursor_col > byte_len(lines@[abs]@) {
                    *final(self) == (FileViewerState { cursor_col: byte_len(lines@[abs]@), ..*old(self) })
                } else {
                    *final(self) == *old(self)
                }
            }),
    {
        let abs = self.absolute_line();
        if abs < lines.len() {
            let len = byte_length(lines[abs]);
            if self.cursor_col > len {
                self.cursor_col = len;
            }
        }
    }

    /// Text-area width for this state's terminal and settings.
    pub open spec fn spec_text_width(&self) -> int {
        text_area_width(self.term_width, gutter_width(self.settings.appearance.line_number_digits))
    }

    /// Whether the horizontal scrollbar shows: wrapping is off and some line
    /// is wider than the text area.
    pub open spec fn spec_show_h_scrollbar(&self, lines: Seq<String>) -> bool {
        !self.spec_wrapping() && max_line_width(lines, lines.len() as int, self.settings.tab_width as int)
            > self.spec_text_width()
    }

    /// Visible text lines, one fewer when the horizontal scrollbar shows.
    pub open spec fn spec_effective_visible_lines(&self, lines: Seq<String>, visible_lines: usize) -> int {
        if self.spec_show_h_scrollbar(lines) {
            if visible_lines >= 1 { visible_lines - 1 } else { 0 }
        } else {
            visible_lines as int
        }
    }

    /// Whether the horizontal scrollbar should be shown.
    pub fn should_show_h_scrollbar(&self, lines: &[String], visible_lines: usize) -> (b: bool)
        requires
            !self.spec_wrapping() ==> lines_fit(lines@, self.settings.tab_width),
        ensures
            b == self.spec_show_h_scrollbar(lines@),
    {
        if self.is_line_wrapping_enabled() {
            return false;
        }
        let text_width = calculate_text_width(self, lines, visible_lines) as usize;
        let tab_width = self.settings.tab_width;
        let mut max_width: usize = 0;
        let mut i: usize = 0;
        while i < lines.len()
            invariant
                i <= lines@.len(),
                lines_fit(lines@, tab_width),
                max_width == max_line_width(lines@, i as int, tab_width as int),
            decreases lines@.len() - i,
        {
            assert(text_fits(lines@[i as int]@, tab_width));
            let w = visual_width(lines[i].as_str(), tab_width);
            if w > max_width {
                max_width = w;
            }
            i = i + 1;
        }
        max_width > text_width
    }

    /// Visible text lines (one fewer when the horizontal scrollbar shows).
    pub fn effective_visible_lines(&self, lines: &[String], visible_lines: usize) -> (r: usize)
        requires
            !self.spec_wrapping() ==> lines_fit(lines@, self.settings.tab_width),
        ensures
            r == self.spec_effective_visible_lines(lines@, visible_lines),
    {
        if self.should_show_h_scrollbar(lines, visible_lines) {
            visible_lines.saturating_sub(1)
        } else {
            visible_lines
        }
    }

    /// Whether the cursor is on screen: not parked off screen, its line within
    /// the visible lines (counting wrapped lines), and, when wrapping is off,
    /// its column within the horizontally scrolled text area.
    pub open spec fn spec_cursor_visible(&self, lines: Seq<String>, visible_lines: usize, text_width: u16) -> bool {
        let tab = self.settings.tab_width;
        let abs = self.spec_absolute_line();
        if self.saved_absolute_cursor is Some {
            false
        } else if visual_lines_in(
            lines,
            self.top_line as int,
            if self.top_line + self.cursor_line + 1 < lines.len() { self.top_line + self.cursor_line + 1 } else { lines.len() as int },
            text_width,
            tab,
            self.spec_wrapping(),
        ) > self.spec_effective_visible_lines(lines, visible_lines) {
            false
        } else if !self.spec_wrapping() && 0 <= abs < lines.len() {
            let line = lines[abs]@;
            let vc = prefix_width(line, if self.cursor_col < line.len() { self.cursor_col as nat } else { line.len() }, tab as int);
            vc >= self.horizontal_scroll_offset && vc < self.horizontal_scroll_offset + text_width
        } else {
            true
        }
    }

    /// Whether the cursor is currently visible within the viewport.
    pub fn is_cursor_visible(&self, lines: &[String], visible_lines: usize, text_width: u16) -> (b: bool)
        requires
            lines_fit(lines@, self.settings.tab_width),
            lines_count_ok(lines@),
            self.top_line + self.cursor_line + 1 <= usize::MAX,
            self.horizontal_scroll_offset + text_width <= usize::MAX,
        ensures
            b == self.spec_cursor_visible(lines@, visible_lines, text_width),
    {
        if self.saved_absolute_cursor.is_some() {
            return false;
        }
        let effective_visible_lines = self.effective_visible_lines(lines, visible_lines);
        let consumed = calculate_visual_lines_to_cursor(lines, self, text_width);
        if consumed > effective_visible_lines {
            return false;
        }
        if !self.is_line_wrapping_enabled() {
            let cursor_line_idx = self.absolute_line();
            if cursor_line_idx < lines.len() {
                assert(text_fits(lines@[cursor_line_idx as int]@, self.settings.tab_width));
                let visual_col = visual_width_up_to(lines[cursor_line_idx].as_str(), self.cursor_col, self.settings.tab_width);
                if visual_col < self.horizontal_scroll_offset {
                    return false;
                }
                let visible_width = text_width as usize;
                if visual_col >= self.horizontal_scroll_offset + visible_width {
                    return false;
                }
            }
        }
        true
    }

    /// Where the cursor is relative to the viewport: `None` when visible,
    /// `Some(true)` above it, `Some(false)` below it.
    pub fn cursor_off_screen_direction(&self, lines: &[String], visible_lines: usize, text_width: u16) -> (r: Option<bool>)
        requires
            lines_fit(lines@, self.settings.tab_width),
            lines_count_ok(lines@),
            self.top_line + self.cursor_line + 1 <= usize::MAX,
            self.horizontal_scroll_offset + text_width <= usize::MAX,
        ensures
            r == (if self.spec_cursor_visible(lines@, visible_lines, text_width) {
                None
            } else {
                Some(self.spec_absolute_line() < self.top_line)
            }),
    {
        if self.is_cursor_visible(lines, visible_lines, text_width) {
            return None;
        }
        let absolute = self.absolute_line();
        if absolute < self.top_line {
            return Some(true);
        }
        Some(false)
    }

    /// Bring a parked or off-screen cursor back: below the view it moves to
    /// the last visible line, above the view the view scrolls up to it.
    pub fn ensure_cursor_visible(&mut self, visible_lines: usize, lines: &[String])
        requires
            !old(self).spec_wrapping() ==> lines_fit(lines@, old(self).settings.tab_width),
            old(self).top_line + old(self).cursor_line <= usize::MAX,
        ensures
            ({
                let v = restored_view(
                    old(self).top_line as int,
                    old(self).cursor_line as int,
                    old(self).spec_absolute_line(),
                    old(self).spec_effective_visible_lines(lines@, visible_lines),
                );
                &&& final(self).top_line == v.0
                &&& final(self).cursor_line == v.1
            }),
            *final(self) == (FileViewerState {
                top_line: final(self).top_line,
                cursor_line: final(self).cursor_line,
                saved_absolute_cursor: None,
                saved_scroll_state: None,
                ..*old(self)
            }),
    {
        let absolute = self.absolute_line();
        let effective_visible_lines = self.effective_visible_lines(lines, visible_lines);
        let (top, cl) = restore_view(self.top_line, self.cursor_line, absolute, effective_visible_lines);
        self.saved_absolute_cursor = None;
        self.saved_scroll_state = None;
        self.top_line = top;
        self.cursor_line = cl;
    }

    /// Position of every cursor (main and extra), sorted and without
    /// duplicates.
    pub fn all_cursor_positions(&self) -> (r: Vec<Position>)
        requires
            self.top_line + self.cursor_line <= usize::MAX,
        ensures
            sorted_unique(r@),
            forall|p: Position| r@.contains(p) <==> (p == self.spec_current_position() || self.multi_cursors@.contains(p)),
    {
        let mut positions: Vec<Position> = Vec::new();
        insert_sorted_unique(&mut positions, self.current_position());
        let mut i: usize = 0;
        while i < self.multi_cursors.len()
            invariant
                i <= self.multi_cursors@.len(),
                sorted_unique(positions@),
                forall|p: Position| positions@.contains(p) <==> (p == self.spec_current_position()
                    || exists|k: int| 0 <= k < i && self.multi_cursors@[k] == p),
            decreases self.multi_cursors@.len() - i,
        {
            insert_sorted_unique(&mut positions, self.multi_cursors[i]);
            i = i + 1;
            assert forall|p: Position| positions@.contains(p) <==> (p == self.spec_current_position()
                || exists|k: int| 0 <= k < i && self.multi_cursors@[k] == p) by {
                if exists|k: int| 0 <= k < i && self.multi_cursors@[k] == p {
                    let k = choose|k: int| 0 <= k < i && self.multi_cursors@[k] == p;
                    if k < i - 1 {
                        assert(exists|k2: int| 0 <= k2 < i - 1 && self.multi_cursors@[k2] == p);
                    }
                }
            }
        }
        assert forall|p: Position| positions@.contains(p) <==> (p == self.spec_current_position() || self.multi_cursors@.contains(p)) by {
            if self.multi_cursors@.contains(p) {
                let k = choose|k: int| 0 <= k < self.multi_cursors@.len() && self.multi_cursors@[k] == p;
                assert(0 <= k < i && self.multi_cursors@[k] == p);
            }
        }
        positions
    }

    /// Toggle the blink phase of the extra cursors every 500 ms (only while
    /// extra cursors or a zero-width multi-line block selection are shown).
    /// `now_ms` is the current time in milliseconds.  Returns whether the
    /// phase changed.
    pub fn update_cursor_blink(&mut self, now_ms: u64) -> (changed: bool)
        ensures
            ({
                let zero_width_block = old(self).block_selection && match old(self).spec_selection_range() {
                    Some((start, end)) => start.1 == end.1 && start.0 != end.0,
                    None => false,
                };
                let should_blink = old(self).multi_cursors@.len() > 0 || zero_width_block;
                let due = match old(self).last_blink_time {
                    Some(t) => (if now_ms >= t { now_ms - t } else { 0 }) >= 500,
                    None => true,
                };
                if should_blink && due {
                    &&& changed
                    &&& *final(self) == (FileViewerState {
                        cursor_blink_state: !old(self).cursor_blink_state,
                        last_blink_time: Some(now_ms),
                        ..*old(self)
                    })
                } else {
                    !changed && *final(self) == *old(self)
                }
            }),
    {
        let is_zero_width_block = self.block_selection && if let Some((start, end)) = self.selection_range() {
            start.1 == end.1 && start.0 != end.0
        } else {
            false
        };
        let should_blink = self.has_multi_cursors() || is_zero_width_block;
        if !should_blink {
            return false;
        }
        let should_toggle = if let Some(last_time) = self.last_blink_time {
            now_ms.saturating_sub(last_time) >= 500
        } else {
            true
        };
        if should_toggle {
            self.cursor_blink_state = !self.cursor_blink_state;
            self.last_blink_time = Some(now_ms);
            true
        } else {
            false
        }
    }

    /// Set the cursor column (clamped to the line's character count) on the
    /// cursor's line; nothing happens when the cursor is past the last line.
    pub fn set_cursor_col(&mut self, col: usize, lines: &[String])
        requires
            old(self).top_line + old(self).cursor_line <= usize::MAX,
        ensures
            ({
                let abs = old(self).spec_absolute_line();
                let inside = 0 <= abs < lines@.len();
                let c = if !inside { old(self).cursor_col } else if col < lines@[abs]@.len() { col } else { lines@[abs]@.len() as usize };
                let d = if inside { c } else { old(self).desired_cursor_col };
                &&& final(self).cursor_col == c
                &&& final(self).desired_cursor_col == d
                &&& view_frame(*final(self), *old(self))
                &&& final(self).top_line == old(self).top_line
                &&& final(self).cursor_line == old(self).cursor_line
                &&& final(self).saved_absolute_cursor == old(self).saved_absolute_cursor
                &&& final(self).saved_scroll_state == old(self).saved_scroll_state
            }),
    {
        let (c, d) = self.clamped_cursor_col(col, lines);
        self.cursor_col = c;
        self.desired_cursor_col = d;
    }

    /// The cursor column and remembered column `set_cursor_col` sets.
    fn clamped_cursor_col(&self, col: usize, lines: &[String]) -> (r: (usize, usize))
        requires
            self.top_line + self.cursor_line <= usize::MAX,
        ensures
            ({
                let abs = self.spec_absolute_line();
                let inside = 0 <= abs < lines@.len();
                let c = if !inside { self.cursor_col } else if col < lines@[abs]@.len() { col } else { lines@[abs]@.len() as usize };
                r.0 == c && r.1 == (if inside { c } else { self.desired_cursor_col })
            }),
    {
        let absolute_line = self.absolute_line();
        if absolute_line < lines.len() {
            let line_char_len = lines[absolute_line].as_str().unicode_len();
            let clamped_col = if col < line_char_len { col } else { line_char_len };
            (clamped_col, clamped_col)
        } else {
            (self.cursor_col, self.desired_cursor_col)
        }
    }


    /// Pull a cursor that is past the end of its line back to the end.
    pub fn clamp_cursor_to_line_bounds(&mut self, lines: &[String])
        requires
            old(self).top_line + old(self).cursor_line <= usize::MAX,
        ensures
            ({
                let abs = old(self).spec_absolute_line();
                if 0 <= abs < lines@.len() && old(self).cursor_col > lines@[abs]@.len() {
                    *final(self) == (FileViewerState {
                        cursor_col: lines@[abs]@.len() as usize,
                        desired_cursor_col: lines@[abs]@.len() as usize,
                        ..*old(self)
                    })
                } else {
                    *final(self) == *old(self)
                }
            }),
    {
        let absolute_line = self.absolute_line();
        if absolute_line < lines.len() {
            let line_char_len = lines[absolute_line].as_str().unicode_len();
            if self.cursor_col > line_char_len {
                self.cursor_col = line_char_len;
                self.desired_cursor_col = self.cursor_col;
            }
        }
    }

    /// Jump to a position: the line is clamped to the document and the
    /// column to the line; a target above the view scrolls up to it, a target
    /// below the view is centred, one inside the view only moves the cursor.
    pub fn set_cursor_position(&mut self, target_line: usize, target_col: usize, lines: &[String], visible_lines: usize)
        requires
            old(self).top_line + visible_lines <= usize::MAX,
        ensures
            ({
                let tl = clamp_line(target_line as int, lines@.len() as int);
                let tc = clamp_col(lines@, tl, target_col as int);
                let v = jump_view(old(self).top_line as int, visible_lines as int, tl);
                &&& final(self).top_line == v.0
                &&& final(self).cursor_line == v.1
                &&& final(self).cursor_col == tc
                &&& final(self).desired_cursor_col == tc
            }),
            *final(self) == (FileViewerState {
                top_line: final(self).top_line,
                cursor_line: final(self).cursor_line,
                cursor_col: final(self).cursor_col,
                desired_cursor_col: final(self).desired_cursor_col,
                saved_absolute_cursor: None,
                saved_scroll_state: None,
                needs_redraw: true,
                ..*old(self)
            }),
    {
        let (top, cl, tc) = jump_target(self.top_line, target_line, target_col, lines, visible_lines);
        self.saved_absolute_cursor = None;
        self.saved_scroll_state = None;
        self.top_line = top;
        self.cursor_line = cl;
        self.cursor_col = tc;
        self.desired_cursor_col = tc;
        self.needs_redraw = true;
    }

    /// Result of moving right by one character: `None` when the cursor cannot
    /// move, else (top_line, cursor_line, cursor_col, at_wrap_end, desired_col).
    /// With wrapping on, a wrap point is visited twice: first at the end of
    /// the upper segment (at_wrap_end), then at the start of the lower one.
    /// At the end of a line the cursor moves to the start of the next line,
    /// scrolling by one line when it would leave the visible lines.
    pub open spec fn right_step(&self, lines: Seq<String>, visible_lines: usize) -> Option<(int, int, int, bool, int)> {
        let abs = self.spec_absolute_line();
        let col = self.cursor_col as int;
        if 0 <= abs < lines.len() {
            let line = lines[abs]@;
            if col < line.len() {
                let wp = word_wrap_points(line, self.spec_text_width(), self.settings.tab_width as int);
                if self.spec_wrapping() && wp.contains(col) && self.cursor_at_wrap_end {
                    Some((self.top_line as int, self.cursor_line as int, col, false, col))
                } else if self.spec_wrapping() && wp.contains(col + 1) && !self.cursor_at_wrap_end {
                    Some((self.top_line as int, self.cursor_line as int, col + 1, true, col + 1))
                } else {
                    Some((self.top_line as int, self.cursor_line as int, col + 1, false, col + 1))
                }
            } else if abs + 1 < lines.len() {
                let eff = self.spec_effective_visible_lines(lines, visible_lines);
                if self.cursor_line + 1 >= eff {
                    Some((self.top_line + 1, eff - 1, 0, false, 0))
                } else {
                    Some((self.top_line as int, self.cursor_line + 1, 0, false, 0))
                }
            } else {
                None
            }
        } else {
            None
        }
    }

    /// Executable form of `right_step`.
    fn right_step_exec(&self, lines: &[String], visible_lines: usize) -> (r: Option<(usize, usize, usize, bool, usize)>)
        requires
            lines_fit(lines@, self.settings.tab_width),
            self.top_line + self.cursor_line + 1 <= usize::MAX,
            ({
                let abs = self.spec_absolute_line();
                (0 <= abs && abs + 1 < lines@.len() && self.cursor_col >= lines@[abs]@.len())
                    ==> self.spec_effective_visible_lines(lines@, visible_lines) >= 1
            }),
        ensures
            match self.right_step(lines@, visible_lines) {
                Some((top, cl, col, we, d)) => r == Some((top as usize, cl as usize, col as usize, we, d as usize)),
                None => r is None,
            },
    {
        let absolute_line = self.absolute_line();
        if absolute_line < lines.len() {
            let line = lines[absolute_line].as_str();
            let line_char_len = line.unicode_len();
            if self.cursor_col < line_char_len {
                if self.is_line_wrapping_enabled() {
                    let text_width = calculate_text_width(self, lines, visible_lines);
                    assert(text_fits(lines@[absolute_line as int]@, self.settings.tab_width));
                    let wrap_points = calculate_word_wrap_points(line, text_width as usize, self.settings.tab_width);
                    if vec_contains(&wrap_points, self.cursor_col) && self.cursor_at_wrap_end {
                        return Some((self.top_line, self.cursor_line, self.cursor_col, false, self.cursor_col));
                    }
                    let next_pos = self.cursor_col + 1;
                    if vec_contains(&wrap_points, next_pos) && !self.cursor_at_wrap_end {
                        return Some((self.top_line, self.cursor_line, next_pos, true, next_pos));
                    }
                }
                return Some((self.top_line, self.cursor_line, self.cursor_col + 1, false, self.cursor_col + 1));
            }
            if absolute_line + 1 < lines.len() {
                let effective_visible_lines = self.effective_visible_lines(lines, visible_lines);
                let (top, cl) = if self.cursor_line + 1 >= effective_visible_lines {
                    (self.top_line + 1, effective_visible_lines - 1)
                } else {
                    (self.top_line, self.cursor_line + 1)
                };
                return Some((top, cl, 0, false, 0));
            }
        }
        None
    }


    /// Move the cursor right by one character (see `right_step`).
    /// Returns whether it moved.
    pub fn move_cursor_right(&mut self, lines: &[String], visible_lines: usize) -> (moved: bool)
        requires
            lines_fit(lines@, old(self).settings.tab_width),
            old(self).top_line + old(self).cursor_line + 1 <= usize::MAX,
            ({
                let abs = old(self).spec_absolute_line();
                (0 <= abs && abs + 1 < lines@.len() && old(self).cursor_col >= lines@[abs]@.len())
                    ==> old(self).spec_effective_visible_lines(lines@, visible_lines) >= 1
            }),
        ensures
            match old(self).right_step(lines@, visible_lines) {
                Some((top, cl, col, we, d)) => moved && *final(self) == (FileViewerState {
                    top_line: top as usize,
                    cursor_line: cl as usize,
                    cursor_col: col as usize,
                    cursor_at_wrap_end: we,
                    desired_cursor_col: d as usize,
                    ..*old(self)
                }),
                None => !moved && *final(self) == *old(self),
            },
    {
        match self.right_step_exec(lines, visible_lines) {
            Some((top, cl, col, we, d)) => {
                self.top_line = top;
                self.cursor_line = cl;
                self.cursor_col = col;
                self.cursor_at_wrap_end = we;
                self.desired_cursor_col = d;
                true
            },
            None => false,
        }
    }

    /// Result of moving left by one character: `None` when the cursor cannot
    /// move, else (top_line, cursor_line, cursor_col, at_wrap_end,
    /// desired_col).  At the start of a wrap segment the cursor first moves to
    /// the end of the segment above (same column); at the start of a line it
    /// moves to the end of the previous line.
    pub open spec fn left_step(&self, lines: Seq<String>) -> Option<(int, int, int, bool, int)> {
        let abs = self.spec_absolute_line();
        let col = self.cursor_col as int;
        if self.spec_wrapping() && !self.cursor_at_wrap_end && col > 0 && 0 <= abs < lines.len()
            && word_wrap_points(lines[abs]@, self.spec_text_width(), self.settings.tab_width as int).contains(col) {
            Some((self.top_line as int, self.cursor_line as int, col, true, col))
        } else if col > 0 {
            Some((self.top_line as int, self.cursor_line as int, col - 1, false, col - 1))
        } else if abs > 0 {
            let (top, cl) = if self.cursor_line > 0 {
                (self.top_line as int, self.cursor_line - 1)
            } else if self.top_line > 0 {
                (self.top_line - 1, self.cursor_line as int)
            } else {
                (self.top_line as int, self.cursor_line as int)
            };
            let new_abs = match self.saved_absolute_cursor {
                Some(l) => l as int,
                None => top + cl,
            };
            if 0 <= new_abs < lines.len() {
                let n = lines[new_abs]@.len() as int;
                Some((top, cl, n, false, n))
            } else {
                Some((top, cl, col, self.cursor_at_wrap_end, self.desired_cursor_col as int))
            }
        } else {
            None
        }
    }

    /// Executable form of `left_step`.
    fn left_step_exec(&self, lines: &[String]) -> (r: Option<(usize, usize, usize, bool, usize)>)
        requires
            lines_fit(lines@, self.settings.tab_width),
            self.top_line + self.cursor_line <= usize::MAX,
        ensures
            match self.left_step(lines@) {
                Some((top, cl, col, we, d)) => r == Some((top as usize, cl as usize, col as usize, we, d as usize)),
                None => r is None,
            },
    {
        let absolute_line = self.absolute_line();
        if self.is_line_wrapping_enabled() && !self.cursor_at_wrap_end && self.cursor_col > 0 {
            if absolute_line < lines.len() {
                let line = lines[absolute_line].as_str();
                let visible_lines: usize = 10;
                let text_width = calculate_text_width(self, lines, visible_lines);
                assert(text_fits(lines@[absolute_line as int]@, self.settings.tab_width));
                let wrap_points = calculate_word_wrap_points(line, text_width as usize, self.settings.tab_width);
                if vec_contains(&wrap_points, self.cursor_col) {
                    return Some((self.top_line, self.cursor_line, self.cursor_col, true, self.cursor_col));
                }
            }
        }
        if self.cursor_col > 0 {
            return Some((self.top_line, self.cursor_line, self.cursor_col - 1, false, self.cursor_col - 1));
        }
        if absolute_line > 0 {
            let (top, cl) = if self.cursor_line > 0 {
                (self.top_line, self.cursor_line - 1)
            } else if self.top_line > 0 {
                (self.top_line - 1, self.cursor_line)
            } else {
                (self.top_line, self.cursor_line)
            };
            let new_absolute = match self.saved_absolute_cursor {
                Some(l) => l,
                None => top + cl,
            };
            if new_absolute < lines.len() {
                let n = lines[new_absolute].as_str().unicode_len();
                return Some((top, cl, n, false, n));
            }
            return Some((top, cl, self.cursor_col, self.cursor_at_wrap_end, self.desired_cursor_col));
        }
        None
    }

    /// Move the cursor left by one character (see `left_step`).
    /// Returns whether it moved.
    pub fn move_cursor_left(&mut self, lines: &[String]) -> (moved: bool)
        requires
            lines_fit(lines@, old(self).settings.tab_width),
            old(self).top_line + old(self).cursor_line <= usize::MAX,
        ensures
            match old(self).left_step(lines@) {
                Some((top, cl, col, we, d)) => moved && *final(self) == (FileViewerState {
                    top_line: top as usize,
                    cursor_line: cl as usize,
                    cursor_col: col as usize,
                    cursor_at_wrap_end: we,
                    desired_cursor_col: d as usize,
                    ..*old(self)
                }),
                None => !moved && *final(self) == *old(self),
            },
    {
        match self.left_step_exec(lines) {
            Some((top, cl, col, we, d)) => {
                self.top_line = top;
                self.cursor_line = cl;
                self.cursor_col = col;
                self.cursor_at_wrap_end = we;
                self.desired_cursor_col = d;
                true
            },
            None => false,
        }
    }

    /// Fresh state (same as `new`).
    pub fn new_for_test(term_width: u16, undo_history: UndoHistory, settings: &'a Settings) -> (s: Self)
        ensures
            Self::is_new_state(s, term_width, undo_history, settings),
    {
        Self::new(term_width, undo_history, settings)
    }

    /// Toggle line wrapping (same as `toggle_line_wrapping`).
    pub fn toggle_line_wrapping_for_test(&mut self)
        ensures
            final(self).spec_wrapping() == !old(self).spec_wrapping(),
            *final(self) == (FileViewerState {
                line_wrapping_override: Some(!old(self).spec_wrapping()),
                horizontal_scroll_offset: if old(self).spec_wrapping() { old(self).horizontal_scroll_offset } else { 0 },
                ..*old(self)
            }),
    {
        self.toggle_line_wrapping();
    }

    /// Whether line wrapping is in effect.
    pub fn is_line_wrapping_enabled_for_test(&self) -> (b: bool)
        ensures
            b == self.spec_wrapping(),
    {
        self.is_line_wrapping_enabled()
    }

    /// Horizontal scroll offset.
    pub fn get_horizontal_scroll_offset(&self) -> (r: usize)
        ensures
            r == self.horizontal_scroll_offset,
    {
        self.horizontal_scroll_offset
    }

    /// Set the horizontal scroll offset.
    pub fn set_horizontal_scroll_offset(&mut self, offset: usize)
        ensures
            *final(self) == (FileViewerState { horizontal_scroll_offset: offset, ..*old(self) }),
    {
        self.horizontal_scroll_offset = offset;
    }

    /// Cursor column.
    pub fn get_cursor_col(&self) -> (r: usize)
        ensures
            r == self.cursor_col,
    {
        self.cursor_col
    }

    /// Set the cursor column directly, without clamping.
    pub fn set_cursor_col_test(&mut self, col: usize)
        ensures
            *final(self) == (FileViewerState { cursor_col: col, ..*old(self) }),
    {
        self.cursor_col = col;
    }

    /// Whether the horizontal scrollbar shows.
    pub fn should_show_h_scrollbar_for_test(&self, lines: &[String], visible_lines: usize) -> (b: bool)
        requires
            !self.spec_wrapping() ==> lines_fit(lines@, self.settings.tab_width),
        ensures
            b == self.spec_show_h_scrollbar(lines@),
    {
        self.should_show_h_scrollbar(lines, visible_lines)
    }

    /// Visible text lines (one fewer with a horizontal scrollbar).
    pub fn effective_visible_lines_for_test(&self, lines: &[String], visible_lines: usize) -> (r: usize)
        requires
            !self.spec_wrapping() ==> lines_fit(lines@, self.settings.tab_width),
        ensures
            r == self.spec_effective_visible_lines(lines@, visible_lines),
    {
        self.effective_visible_lines(lines, visible_lines)
    }

    /// Whether the cursor is visible.
    pub fn is_cursor_visible_for_test(&self, lines: &[String], visible_lines: usize, text_width: u16) -> (b: bool)
        requires
            lines_fit(lines@, self.settings.tab_width),
            lines_count_ok(lines@),
            self.top_line + self.cursor_line + 1 <= usize::MAX,
            self.horizontal_scroll_offset + text_width <= usize::MAX,
        ensures
            b == self.spec_cursor_visible(lines@, visible_lines, text_width),
    {
        self.is_cursor_visible(lines, visible_lines, text_width)
    }

    /// Bring the cursor back on screen (same as `ensure_cursor_visible`).
    pub fn ensure_cursor_visible_for_test(&mut self, visible_lines: usize, lines: &[String])
        requires
            !old(self).spec_wrapping() ==> lines_fit(lines@, old(self).settings.tab_width),
            old(self).top_line + old(self).cursor_line <= usize::MAX,
        ensures
            ({
                let v = restored_view(
                    old(self).top_line as int,
                    old(self).cursor_line as int,
                    old(self).spec_absolute_line(),
                    old(self).spec_effective_visible_lines(lines@, visible_lines),
                );
                &&& final(self).top_line == v.0
                &&& final(self).cursor_line == v.1
            }),
            *final(self) == (FileViewerState {
                top_line: final(self).top_line,
                cursor_line: final(self).cursor_line,
                saved_absolute_cursor: None,
                saved_scroll_state: None,
                ..*old(self)
            }),
    {
        self.ensure_cursor_visible(visible_lines, lines)
    }

    /// Cursor line relative to the top of the view.
    pub fn get_cursor_line(&self) -> (r: usize)
        ensures
            r == self.cursor_line,
    {
        self.cursor_line
    }

    /// Set the cursor line relative to the top of the view.
    pub fn set_cursor_line(&mut self, line: usize)
        ensures
            *final(self) == (FileViewerState { cursor_line: line, ..*old(self) }),
    {
        self.cursor_line = line;
    }

    /// First document line shown.
    pub fn get_top_line(&self) -> (r: usize)
        ensures
            r == self.top_line,
    {
        self.top_line
    }

    /// Set the first document line shown.
    pub fn set_top_line(&mut self, line: usize)
        ensures
            *final(self) == (FileViewerState { top_line: line, ..*old(self) }),
    {
        self.top_line = line;
    }

    /// Cursor invariants that editing keeps: the cursor's line exists (or the
    /// document is empty) and its column is within the line's byte length.
    pub open spec fn spec_cursor_invariants(&self, lines: Seq<String>) -> bool {
        let abs = self.spec_absolute_line();
        &&& (0 <= abs < lines.len() || lines.len() == 0)
        &&& (0 <= abs < lines.len() ==> self.cursor_col <= byte_len(lines[abs]@))
    }

    /// Check of the cursor invariants; the check is discharged by the
    /// verifier at every call, so nothing remains to do at run time.
    pub fn validate_cursor_invariants(&self, lines: &[String])
        requires
            self.spec_cursor_invariants(lines@),
    {
    }
}

/// `a` and `b` agree on every field that neither editing the text nor the
/// go-to-line prompt touches.
pub open spec fn same_outside_prompt(a: FileViewerState, b: FileViewerState) -> bool {
    &&& a.cursor_blink_state == b.cursor_blink_state
    &&& a.last_blink_time == b.last_blink_time
    &&& a.needs_footer_redraw == b.needs_footer_redraw
    &&& a.term_width == b.term_width
    &&& a.settings == b.settings
    &&& a.mouse_dragging == b.mouse_dragging
    &&& a.drag_source_start == b.drag_source_start
    &&& a.drag_source_end == b.drag_source_end
    &&& a.drag_text == b.drag_text
    &&& a.dragging_selection_active == b.dragging_selection_active
    &&& a.drag_target == b.drag_target
    &&& a.drag_click_logical_pos == b.drag_click_logical_pos
    &&& a.find_active == b.find_active
    &&& a.find_regex_mode == b.find_regex_mode
    &&& a.filter_active == b.filter_active
    &&& a.filter_context_before == b.filter_context_before
    &&& a.filter_context_after == b.filter_context_after
    &&& a.find_pattern == b.find_pattern
    &&& a.find_history == b.find_history
    &&& a.find_history_index == b.find_history_index
    &&& a.last_search_pattern == b.last_search_pattern
    &&& a.search_wrapped == b.search_wrapped
    &&& a.wrap_warning_pending == b.wrap_warning_pending
    &&& a.find_scope == b.find_scope
    &&& a.search_hit_count == b.search_hit_count
    &&& a.search_current_hit == b.search_current_hit
    &&& a.horizontal_scroll_offset == b.horizontal_scroll_offset
    &&& a.line_wrapping_override == b.line_wrapping_override
    &&& a.is_read_only == b.is_read_only
    &&& a.markdown_rendered == b.markdown_rendered
    &&& a.rendered_lines == b.rendered_lines
    &&& a.rendered_selection_start == b.rendered_selection_start
    &&& a.rendered_selection_end == b.rendered_selection_end
    &&& a.rendered_mouse_dragging == b.rendered_mouse_dragging
    &&& a.status_message == b.status_message
    &&& a.find_prompt == b.find_prompt
}

/// `a` and `b` agree on every field that editing the text leaves alone: all
/// but the cursor and view, the selection, the extra cursors, the history and
/// the modified and redraw flags.
pub open spec fn same_outside_editing(a: FileViewerState, b: FileViewerState) -> bool {
    &&& same_outside_prompt(a, b)
    &&& a.goto_line_active == b.goto_line_active
    &&& a.goto_line_input == b.goto_line_input
    &&& a.goto_line_cursor_pos == b.goto_line_cursor_pos
    &&& a.goto_line_typing_started == b.goto_line_typing_started
}

/// `a` is `b` with at most the view and cursor position (top line, cursor row
/// and column) changed.
pub open spec fn only_view_changed(a: FileViewerState, b: FileViewerState) -> bool {
    &&& view_frame(a, b)
    &&& a.desired_cursor_col == b.desired_cursor_col
    &&& a.saved_absolute_cursor == b.saved_absolute_cursor
    &&& a.saved_scroll_state == b.saved_scroll_state
}

/// `a` and `b` agree on everything but the view, the cursor position, the
/// remembered column and the saved off-screen cursor.
pub open spec fn view_frame(a: FileViewerState, b: FileViewerState) -> bool {
    &&& same_outside_editing(a, b)
    &&& a.undo_history == b.undo_history
    &&& a.cursor_at_wrap_end == b.cursor_at_wrap_end
    &&& a.selection_start == b.selection_start
    &&& a.selection_end == b.selection_end
    &&& a.selection_anchor == b.selection_anchor
    &&& a.block_selection == b.block_selection
    &&& a.multi_cursors == b.multi_cursors
    &&& a.needs_redraw == b.needs_redraw
    &&& a.modified == b.modified
}

/// (top_line, cursor_line) after bringing the cursor back on screen: a
/// cursor row past the visible rows moves to the last visible row (the view
/// follows the cursor's absolute line); a cursor above the view scrolls the
/// view up to it.
pub open spec fn restored_view(top: int, cursor_line: int, abs: int, eff: int) -> (int, int) {
    let cl = if eff >= 1 { eff - 1 } else { 0 };
    if cursor_line >= eff {
        (if abs >= cl { abs - cl } else { 0 }, cl)
    } else if abs < top {
        (abs, 0)
    } else {
        (top, cursor_line)
    }
}

/// Executable form of `restored_view`.
pub(crate) fn restore_view(top: usize, cursor_line: usize, abs: usize, eff: usize) -> (r: (usize, usize))
    ensures
        (r.0 as int, r.1 as int) == restored_view(top as int, cursor_line as int, abs as int, eff as int),
{
    if cursor_line >= eff {
        let cl = eff.saturating_sub(1);
        (abs.saturating_sub(cl), cl)
    } else if abs < top {
        (abs, 0)
    } else {
        (top, cursor_line)
    }
}

/// A target line clamped to the document (0 for an empty document).
pub open spec fn clamp_line(target: int, len: int) -> int {
    let last = if len >= 1 { len - 1 } else { 0 };
    if target < last { target } else { last }
}

/// A target column clamped to the character count of line `line` (0 when
/// the line does not exist).
pub open spec fn clamp_col(lines: Seq<String>, line: int, col: int) -> int {
    if 0 <= line < lines.len() {
        if col < lines[line]@.len() { col } else { lines[line]@.len() as int }
    } else {
        0
    }
}

/// (top_line, cursor_line) after jumping to line `tl`: scroll up to a line
/// above the view, centre a line below the view, otherwise keep the view.
pub open spec fn jump_view(top: int, visible: int, tl: int) -> (int, int) {
    if tl < top {
        (tl, 0)
    } else if tl >= top + visible {
        let t = if tl >= visible / 2 { tl - visible / 2 } else { 0 };
        (t, tl - t)
    } else {
        (top, tl - top)
    }
}

/// New (top_line, cursor_line, cursor_col) for a jump to a target position.
fn jump_target(top_line: usize, target_line: usize, target_col: usize, lines: &[String], visible_lines: usize) -> (r: (usize, usize, usize))
    requires
        top_line + visible_lines <= usize::MAX,
    ensures
        ({
            let tl = clamp_line(target_line as int, lines@.len() as int);
            let v = jump_view(top_line as int, visible_lines as int, tl);
            r.0 == v.0 && r.1 == v.1 && r.2 == clamp_col(lines@, tl, target_col as int)
        }),
{
    let last = lines.len().saturating_sub(1);
    let target_line = if target_line < last { target_line } else { last };
    let target_col = if target_line < lines.len() {
        let n = lines[target_line].as_str().unicode_len();
        if target_col < n { target_col } else { n }
    } else {
        0
    };
    if target_line < top_line {
        (target_line, 0, target_col)
    } else if target_line >= top_line + visible_lines {
        let t = target_line.saturating_sub(visible_lines / 2);
        (t, target_line - t, target_col)
    } else {
        (top_line, target_line - top_line, target_col)
    }
}

/// Largest display width among the first `n` lines (0 when there are none).
pub open spec fn max_line_width(lines: Seq<String>, n: int, tab: int) -> int
    decreases n,
{
    if n <= 0 {
        0
    } else {
        let m = max_line_width(lines, n - 1, tab);
        let w = seq_width(lines[n - 1]@, tab);
        if w > m { w } else { m }
    }
}

/// Strict position order.
pub open spec fn pos_lt(a: Position, b: Position) -> bool {
    a.0 < b.0 || (a.0 == b.0 && a.1 < b.1)
}

/// Strictly increasing positions.
pub open spec fn sorted_unique(v: Seq<Position>) -> bool {
    forall|i: int, j: int| 0 <= i < j < v.len() ==> pos_lt(#[trigger] v[i], #[trigger] v[j])
}

/// Insert `p` into a strictly increasing vector unless it is present.
fn insert_sorted_unique(v: &mut Vec<Position>, p: Position)
    requires
        sorted_unique(old(v)@),
    ensures
        sorted_unique(final(v)@),
        forall|q: Position| final(v)@.contains(q) <==> (q == p || old(v)@.contains(q)),
{
    let mut i: usize = 0;
    while i < v.len() && position_less(v[i], p)
        invariant
            i <= v@.len(),
            v@ == old(v)@,
            sorted_unique(v@),
            forall|k: int| 0 <= k < i ==> pos_lt(#[trigger] v@[k], p),
        decreases v@.len() - i,
    {
        i = i + 1;
    }
    if i < v.len() && v[i].0 == p.0 && v[i].1 == p.1 {
        assert(v@[i as int] == p);
        return;
    }
    proof {
        if i < v@.len() {
            assert(!pos_lt(v@[i as int], p) && v@[i as int] != p);
            assert(pos_lt(p, v@[i as int]));
        }
    }
    let ghost before = v@;
    v.insert(i, p);
    proof {
        assert forall|a: int, b: int| 0 <= a < b < v@.len() implies pos_lt(#[trigger] v@[a], #[trigger] v@[b]) by {
            if b < i {
            } else if a < i && b == i {
            } else if a < i && b > i {
                assert(v@[b] == before[b - 1]);
                assert(pos_lt(before[a], before[b - 1]) || a == b - 1);
            } else if a == i {
                assert(v@[b] == before[b - 1]);
                if b - 1 > i {
                    assert(pos_lt(before[i as int], before[b - 1]));
                }
            } else {
                assert(v@[a] == before[a - 1]);
                assert(v@[b] == before[b - 1]);
            }
        }
        assert(v@.len() == before.len() + 1);
        assert forall|k: int| 0 <= k < i implies v@[k] == before[k] by {}
        assert forall|k: int| i < k < v@.len() implies v@[k] == before[k - 1] by {}
        assert(v@[i as int] == p);
        assert forall|q: Position| v@.contains(q) implies (q == p || before.contains(q)) by {
            let k = choose|k: int| 0 <= k < v@.len() && v@[k] == q;
            if k < i {
                assert(before[k] == q);
            } else if k > i {
                assert(before[k - 1] == q);
            }
        }
        assert forall|q: Position| (q == p || before.contains(q)) implies v@.contains(q) by {
            if q == p {
                assert(v@[i as int] == q);
            } else {
                let k = choose|k: int| 0 <= k < before.len() && before[k] == q;
                if k < i {
                    assert(v@[k] == q);
                } else {
                    assert(v@[k + 1] == q);
                }
            }
        }
    }
}

/// Whether the point list holds `x` (as an integer).
fn vec_contains(v: &Vec<usize>, x: usize) -> (r: bool)
    ensures
        r == as_ints(v@).contains(x as int),
{
    let mut i: usize = 0;
    while i < v.len()
        invariant
            i <= v@.len(),
            forall|k: int| 0 <= k < i ==> v@[k] != x,
        decreases v@.len() - i,
    {
        if v[i] == x {
            assert(as_ints(v@)[i as int] == x as int);
            return true;
        }
        i = i + 1;
    }
    assert forall|k: int| 0 <= k < as_ints(v@).len() implies as_ints(v@)[k] != x as int by {
        assert(as_ints(v@)[k] == v@[k] as int);
    }
    false
}

/// Strict position order on executable values.
fn position_less(a: Position, b: Position) -> (r: bool)
    ensures
        r == pos_lt(a, b),
{
    a.0 < b.0 || (a.0 == b.0 && a.1 < b.1)
}

} // verus!

//! Edit records and the undo/redo history.
use vstd::prelude::*;

verus! {

/// Cursor snapshot stored with a composite edit: (line, column, extra cursors).
pub type CursorSnapshot = (usize, usize, Vec<(usize, usize)>);

/// One recorded change to the document (positions are character indices).
pub enum Edit {
    InsertChar { line: usize, col: usize, ch: char },
    DeleteChar { line: usize, col: usize, ch: char },
    SplitLine { line: usize, col: usize, before: String, after: String },
    MergeLine { line: usize, first: String, second: String },
    InsertLine { line: usize, content: String },
    DeleteLine { line: usize, content: String },
    DragBlock {
        before: Vec<String>,
        after: Vec<String>,
        source_start: (usize, usize),
        source_end: (usize, usize),
        dest: (usize, usize),
        copy: bool,
    },
    ReplaceLine { line: usize, old_content: String, new_content: String },
    DeleteWord { line: usize, col: usize, text: String, forward: bool },
    CompositeEdit { edits: Vec<Edit>, undo_cursor: Option<CursorSnapshot> },
}

/// Recorded edits with the position reached by undo and redo, plus the state
/// snapshot that is persisted with them.
pub struct UndoHistory {
    /// Every recorded edit, oldest first; the first `current` are applied,
    /// the rest were undone and can be redone.
    pub edits: Vec<Edit>,
    /// Number of applied edits.
    pub current: usize,
    /// Whether the document differs from its last saved state.
    pub modified: bool,
    /// Search history persisted together with the edits.
    pub find_history: Vec<String>,
    /// Snapshot of the viewport and cursor recorded after each change.
    pub top_line: usize,
    pub cursor_line: usize,
    pub cursor_col: usize,
    /// Snapshot of the document recorded after each change.
    pub content: Vec<String>,
}

/// The edits that undo can take back, oldest first.
pub open spec fn undoable(h: UndoHistory) -> Seq<Edit> {
    if h.current <= h.edits@.len() { h.edits@.take(h.current as int) } else { h.edits@ }
}

/// The edits that redo can bring back, next first.
pub open spec fn redoable(h: UndoHistory) -> Seq<Edit> {
    if h.current <= h.edits@.len() { h.edits@.skip(h.current as int) } else { Seq::empty() }
}

impl UndoHistory {
    /// An empty history.
    pub fn new() -> (h: Self)
        ensures
            h.edits@.len() == 0,
            h.current == 0,
            !h.modified,
            h.find_history@.len() == 0,
            h.top_line == 0 && h.cursor_line == 0 && h.cursor_col == 0,
            h.content@.len() == 0,
    {
        UndoHistory {
            edits: Vec::new(),
            current: 0,
            modified: false,
            find_history: Vec::new(),
            top_line: 0,
            cursor_line: 0,
            cursor_col: 0,
            content: Vec::new(),
        }
    }

    /// Record a new edit: it becomes the last undoable one, the undone edits
    /// are dropped (nothing is redoable any more) and the document counts as
    /// modified.
    pub fn push(&mut self, edit: Edit)
        ensures
            final(self).edits@ == undoable(*old(self)).push(edit),
            final(self).current == final(self).edits@.len(),
            final(self).modified,
            final(self).find_history == old(self).find_history,
            final(self).top_line == old(self).top_line,
            final(self).cursor_line == old(self).cursor_line,
            final(self).cursor_col == old(self).cursor_col,
            final(self).content == old(self).content,
    {
        self.edits.truncate(self.current);
        self.edits.push(edit);
        self.current = self.edits.len();
        self.modified = true;
    }

    /// Record several edits as one undo step (nothing when there are none).
    pub fn push_composite(&mut self, edits: Vec<Edit>, undo_cursor: Option<CursorSnapshot>)
        ensures
            edits@.len() > 0 ==> {
                &&& final(self).edits@ == undoable(*old(self)).push(Edit::CompositeEdit { edits, undo_cursor })
                &&& final(self).current == final(self).edits@.len()
                &&& final(self).modified
            },
            edits@.len() == 0 ==> *final(self) == *old(self),
            final(self).find_history == old(self).find_history,
            final(self).top_line == old(self).top_line,
            final(self).cursor_line == old(self).cursor_line,
            final(self).cursor_col == old(self).cursor_col,
            final(self).content == old(self).content,
    {
        if edits.len() > 0 {
            self.push(Edit::CompositeEdit { edits, undo_cursor });
        }
    }

    /// Step back over the last applied edit (the caller applies it
    /// backwards); returns its index.  The document counts as modified while
    /// applied edits remain.
    pub fn undo(&mut self) -> (r: Option<usize>)
        ensures
            (old(self).current == 0 || old(self).current > old(self).edits@.len()) ==> r is None && *final(self) == *old(self),
            (0 < old(self).current <= old(self).edits@.len()) ==> {
                &&& r == Some((old(self).current - 1) as usize)
                &&& final(self).current == old(self).current - 1
                &&& final(self).modified == (final(self).current > 0)
            },
            final(self).edits == old(self).edits,
            final(self).find_history == old(self).find_history,
            final(self).top_line == old(self).top_line,
            final(self).cursor_line == old(self).cursor_line,
            final(self).cursor_col == old(self).cursor_col,
            final(self).content == old(self).content,
    {
        if self.current == 0 || self.current > self.edits.len() {
            return None;
        }
        self.current = self.current - 1;
        self.modified = self.current > 0;
        Some(self.current)
    }

    /// Step forward over the next undone edit (the caller applies it again);
    /// returns its index.
    pub fn redo(&mut self) -> (r: Option<usize>)
        ensures
            old(self).current >= old(self).edits@.len() ==> r is None && *final(self) == *old(self),
            old(self).current < old(self).edits@.len() ==> {
                &&& r == Some(old(self).current)
                &&& final(self).current == old(self).current + 1
                &&& final(self).modified
            },
            final(self).edits == old(self).edits,
            final(self).find_history == old(self).find_history,
            final(self).top_line == old(self).top_line,
            final(self).cursor_line == old(self).cursor_line,
            final(self).cursor_col == old(self).cursor_col,
            final(self).content == old(self).content,
    {
        if self.current >= self.edits.len() {
            return None;
        }
        self.current = self.current + 1;
        self.modified = true;
        Some(self.current - 1)
    }

    /// `undo` when an applied edit exists: one step back.
    pub fn step_back(&mut self)
        requires
            0 < old(self).current <= old(self).edits@.len(),
        ensures
            final(self).current == old(self).current - 1,
            final(self).modified == (final(self).current > 0),
            final(self).edits == old(self).edits,
            final(self).find_history == old(self).find_history,
            final(self).top_line == old(self).top_line,
            final(self).cursor_line == old(self).cursor_line,
            final(self).cursor_col == old(self).cursor_col,
            final(self).content == old(self).content,
    {
        self.current = self.current - 1;
        self.modified = self.current > 0;
    }

    /// `redo` when an undone edit exists: one step forward.
    pub fn step_forward(&mut self)
        requires
            old(self).current < old(self).edits@.len(),
        ensures
            final(self).current == old(self).current + 1,
            final(self).modified,
            final(self).edits == old(self).edits,
            final(self).find_history == old(self).find_history,
            final(self).top_line == old(self).top_line,
            final(self).cursor_line == old(self).cursor_line,
            final(self).cursor_col == old(self).cursor_col,
            final(self).content == old(self).content,
    {
        let n = self.edits.len();
        self.current = self.current + 1;
        self.modified = true;
    }

    /// Record the viewport, cursor and document after a change.
    pub fn update_state(&mut self, top_line: usize, cursor_line: usize, cursor_col: usize, content: Vec<String>)
        ensures
            *final(self) == (UndoHistory { top_line, cursor_line, cursor_col, content, ..*old(self) }),
    {
        self.top_line = top_line;
        self.cursor_line = cursor_line;
        self.cursor_col = cursor_col;
        self.content = content;
    }
}

/// Undo followed by redo returns to the same history position over the same
/// edits, and redo followed by undo likewise.
pub proof fn lemma_undo_redo_positions(h: UndoHistory)
    requires
        h.current <= h.edits@.len(),
        h.edits@.len() <= usize::MAX,
    ensures
        h.current > 0 ==> ({
            let after_undo = (h.current - 1) as usize;
            &&& after_undo < h.edits@.len()
            &&& after_undo + 1 == h.current
            &&& redoable(UndoHistory { current: after_undo, ..h })[0] == undoable(h).last()
        }),
        h.current < h.edits@.len() ==> ({
            let after_redo = (h.current + 1) as usize;
            &&& after_redo - 1 == h.current
            &&& undoable(UndoHistory { current: after_redo, ..h }).last() == redoable(h)[0]
        }),
{
    if h.current < h.edits@.len() {
        let h2 = UndoHistory { current: (h.current + 1) as usize, ..h };
        assert(undoable(h2) == h.edits@.take(h.current + 1));
        assert(undoable(h2).last() == h.edits@[h.current as int]);
        assert(redoable(h)[0] == h.edits@[h.current as int]);
    }
    if h.current > 0 {
        let h1 = UndoHistory { current: (h.current - 1) as usize, ..h };
        assert(redoable(h1)[0] == h.edits@[h.current - 1]);
        assert(undoable(h).last() == h.edits@[h.current - 1]);
    }
}

} // verus!

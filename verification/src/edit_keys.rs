//! The editing keys: which edit a key press makes, and making it.
use vstd::prelude::*;
use crate::editor_state::{FileViewerState, Position};
use crate::editing::{
    backspace_done, char_inserted, delete_backward, delete_done, delete_forward, insert_char, insert_tab, line_split,
    split_line, tab_inserted,
};
use crate::keys::{KeyCode, KeyEvent};
use crate::multi_cursor::{activate_multi_cursor_from_block, block_turned_into_cursors, delete_backward_multi_cursor,
    delete_forward_multi_cursor, insert_char_multi_cursor, multi_backspace_done, multi_delete_done, multi_typed};
use crate::selection::{remove_selection, selection_removal};

verus! {

/// The edit an editing key makes.
#[derive(Debug, Clone, Copy, PartialEq, Eq, Structural)]
pub enum EditingPlan {
    /// Type at every cursor.
    MultiType(char),
    /// Backspace at every cursor.
    MultiBackspace,
    /// Delete at every cursor.
    MultiDelete,
    /// Remove the block selection's columns, leaving a cursor on each of its
    /// lines at its start column.
    BlockRemove,
    /// Remove the (line-wise) selection.
    RemoveSelection,
    /// Remove the block selection's columns, then type at a cursor on each of
    /// its lines.
    BlockRetype(char),
    /// Type at the cursor, removing the selection first when `replace`.
    Type { c: char, replace: bool },
    /// Split the line at the cursor, removing the selection first when
    /// `replace`.
    Enter { replace: bool },
    /// Insert a tab's worth of spaces, removing the selection first when
    /// `replace`.
    Tab { replace: bool },
    /// Delete the character before the cursor.
    Backspace,
    /// Delete the character at the cursor.
    Delete,
    /// Not an editing key.
    Nothing,
}

/// A printable key: a character without Control or Alt.
pub open spec fn typed_char(key: KeyEvent) -> Option<char> {
    match key.code {
        KeyCode::Char(c) => if !key.modifiers.control && !key.modifiers.alt { Some(c) } else { None },
        _ => None,
    }
}

/// Whether a zero-width block selection over several lines becomes cursors
/// before the key acts: for characters, Backspace and Delete.
pub open spec fn activates_cursors(s: FileViewerState, key: KeyEvent) -> bool {
    &&& s.block_selection
    &&& s.spec_selection_range() matches Some((a, b)) && a.1 == b.1 && a.0 != b.0
    &&& (key.code is Char || key.code is Backspace || key.code is Delete)
}

/// The edit that `key` makes in state `s`: with extra cursors (or a
/// zero-width block selection over several lines turning into them),
/// characters, Backspace and Delete act at every cursor; otherwise the
/// selection is removed or replaced as the key requires.
pub open spec fn editing_plan(s: FileViewerState, key: KeyEvent) -> EditingPlan {
    let multi = activates_cursors(s, key) || s.multi_cursors@.len() > 0;
    let sel = s.spec_has_selection();
    if multi && typed_char(key) is Some {
        EditingPlan::MultiType(typed_char(key)->0)
    } else if multi && key.code is Backspace {
        EditingPlan::MultiBackspace
    } else if multi && key.code is Delete {
        EditingPlan::MultiDelete
    } else if (key.code is Backspace || key.code is Delete) && sel && s.block_selection {
        EditingPlan::BlockRemove
    } else if (key.code is Backspace || key.code is Delete) && sel {
        EditingPlan::RemoveSelection
    } else if typed_char(key) is Some {
        let c = typed_char(key)->0;
        if sel && s.block_selection {
            match s.spec_selection_range() {
                Some((a, b)) => if a.1 != b.1 { EditingPlan::BlockRetype(c) } else { EditingPlan::Type { c, replace: false } },
                None => EditingPlan::Type { c, replace: false },
            }
        } else {
            EditingPlan::Type { c, replace: sel }
        }
    } else if key.code is Enter {
        EditingPlan::Enter { replace: sel }
    } else if key.code is Tab {
        EditingPlan::Tab { replace: sel }
    } else if key.code is Backspace {
        EditingPlan::Backspace
    } else if key.code is Delete {
        EditingPlan::Delete
    } else {
        EditingPlan::Nothing
    }
}

/// Decide which edit `key` makes (see `editing_plan`).
pub fn plan_editing_key(state: &FileViewerState, key: KeyEvent) -> (p: EditingPlan)
    ensures
        p == editing_plan(*state, key),
{
    let printable = match key.code {
        KeyCode::Char(c) => if !key.modifiers.control && !key.modifiers.alt { Some(c) } else { None },
        _ => None,
    };
    let is_back = match key.code { KeyCode::Backspace => true, _ => false };
    let is_del = match key.code { KeyCode::Delete => true, _ => false };
    let is_char = match key.code { KeyCode::Char(_) => true, _ => false };
    let range = state.selection_range();
    let activates = state.block_selection && (is_char || is_back || is_del) && match range {
        Some((a, b)) => a.1 == b.1 && a.0 != b.0,
        None => false,
    };
    let multi = activates || state.multi_cursors.len() > 0;
    let sel = state.has_selection();
    if multi {
        if let Some(c) = printable {
            return EditingPlan::MultiType(c);
        }
        if is_back {
            return EditingPlan::MultiBackspace;
        }
        if is_del {
            return EditingPlan::MultiDelete;
        }
    }
    if (is_back || is_del) && sel && state.block_selection {
        return EditingPlan::BlockRemove;
    }
    if (is_back || is_del) && sel {
        return EditingPlan::RemoveSelection;
    }
    if let Some(c) = printable {
        if sel && state.block_selection {
            return match range {
                Some((a, b)) => if a.1 != b.1 { EditingPlan::BlockRetype(c) } else { EditingPlan::Type { c, replace: false } },
                None => EditingPlan::Type { c, replace: false },
            };
        }
        return EditingPlan::Type { c, replace: sel };
    }
    match key.code {
        KeyCode::Enter => EditingPlan::Enter { replace: sel },
        KeyCode::Tab => EditingPlan::Tab { replace: sel },
        KeyCode::Backspace => EditingPlan::Backspace,
        KeyCode::Delete => EditingPlan::Delete,
        _ => EditingPlan::Nothing,
    }
}

/// Both ends of the selection, if any, have components below `usize::MAX`.
pub open spec fn selection_in_range(s: FileViewerState) -> bool {
    s.spec_selection_range() matches Some((a, b)) ==> a.0 < usize::MAX && a.1 < usize::MAX && b.0 < usize::MAX && b.1 < usize::MAX
}

/// `n` is `o` with the extra cursors dropped (see `clear_multi_cursors`).
pub open spec fn cursors_dropped(o: FileViewerState, n: FileViewerState) -> bool {
    &&& o.multi_cursors@.len() > 0 ==> n == (FileViewerState { multi_cursors: n.multi_cursors, needs_redraw: true, ..o })
        && n.multi_cursors@.len() == 0
    &&& o.multi_cursors@.len() == 0 ==> n == o
}

/// `n` and `nl` are `o` and `ol` after removing the block selection from `a`
/// to `b` (see `selection_removal`, result `r`) and turning its start column
/// into a cursor on each of its lines.
pub open spec fn block_removed(o: FileViewerState, n: FileViewerState, ol: Seq<String>, nl: Seq<String>, a: Position, b: Position, r: bool)
    -> bool
{
    exists|mid: FileViewerState| #[trigger] selection_removal(o, mid, ol, nl, r) && block_turned_into_cursors(mid, n, a, (b.0, a.1))
}

/// `n` and `nl` are `o` and `ol` after removing the selection when
/// `replace` (see `selection_removal`), unchanged otherwise.
pub open spec fn removed_if(o: FileViewerState, n: FileViewerState, ol: Seq<String>, nl: Seq<String>, replace: bool) -> bool {
    if replace {
        exists|r: bool| #[trigger] selection_removal(o, n, ol, nl, r)
    } else {
        n == o && nl == ol
    }
}

/// `n` is `o` once a zero-width block selection over several lines has
/// become cursors (see `activates_cursors`), or `o` itself.
pub open spec fn cursors_prepared(o: FileViewerState, n: FileViewerState, key: KeyEvent) -> bool {
    if activates_cursors(o, key) {
        block_turned_into_cursors(o, n, (o.spec_selection_range()->0).0, (o.spec_selection_range()->0).1)
    } else {
        n == o
    }
}

/// `n` and `nl` are `o` and `ol` after the single-cursor edit `plan` (the
/// extra cursors already dropped; `range` is the selection the key saw),
/// with result `r`.
pub open spec fn single_edit(o: FileViewerState, n: FileViewerState, ol: Seq<String>, nl: Seq<String>, plan: EditingPlan,
    range: Option<(Position, Position)>, visible_lines: usize, r: bool) -> bool
{
    match plan {
        EditingPlan::BlockRemove => match range {
            Some((a, b)) => block_removed(o, n, ol, nl, a, b, r),
            None => !r && n == o && nl == ol,
        },
        EditingPlan::RemoveSelection => selection_removal(o, n, ol, nl, r),
        EditingPlan::BlockRetype(c) => match range {
            Some((a, b)) => exists|s3: FileViewerState, l3: Seq<String>, r3: bool|
                #[trigger] block_removed(o, s3, ol, l3, a, b, r3) && multi_typed(s3, n, l3, nl, c, r),
            None => !r && n == o && nl == ol,
        },
        EditingPlan::Type { c, replace } => exists|s3: FileViewerState, l3: Seq<String>|
            #[trigger] removed_if(o, s3, ol, l3, replace) && char_inserted(s3, n, l3, nl, c, r),
        EditingPlan::Enter { replace } => exists|s3: FileViewerState, l3: Seq<String>|
            #[trigger] removed_if(o, s3, ol, l3, replace) && line_split(s3, n, l3, nl, visible_lines, r),
        EditingPlan::Tab { replace } => exists|s3: FileViewerState, l3: Seq<String>|
            #[trigger] removed_if(o, s3, ol, l3, replace) && tab_inserted(s3, n, l3, nl, r),
        EditingPlan::Backspace => backspace_done(o, n, ol, nl, r),
        EditingPlan::Delete => delete_done(o, n, ol, nl, r),
        _ => !r && n == o && nl == ol,
    }
}

/// `n` and `nl` are `o` and `ol` after editing key `key` (result `r`):
/// a zero-width block selection over several lines may first become cursors
/// (see `cursors_prepared`); the multi-cursor plans then act at every cursor,
/// and the others drop the extra cursors and make their single-cursor edit
/// (see `single_edit`).
pub open spec fn edit_key_done(o: FileViewerState, n: FileViewerState, ol: Seq<String>, nl: Seq<String>, key: KeyEvent,
    visible_lines: usize, r: bool) -> bool
{
    let plan = editing_plan(o, key);
    exists|s1: FileViewerState| #[trigger] cursors_prepared(o, s1, key) && match plan {
        EditingPlan::MultiType(c) => multi_typed(s1, n, ol, nl, c, r),
        EditingPlan::MultiBackspace => multi_backspace_done(s1, n, ol, nl, r),
        EditingPlan::MultiDelete => multi_delete_done(s1, n, ol, nl, r),
        _ => exists|s2: FileViewerState| #[trigger] cursors_dropped(s1, s2)
            && single_edit(s2, n, ol, nl, plan, o.spec_selection_range(), visible_lines, r),
    }
}

/// Remove the block selection from `a` to `b` and leave a cursor on each of
/// its lines at its start column.
fn remove_block_to_cursors(state: &mut FileViewerState, lines: &mut Vec<String>, a: Position, b: Position) -> (removed: bool)
    requires
        a.1 < usize::MAX,
    ensures
        block_removed(*old(state), *final(state), old(lines)@, final(lines)@, a, b, removed),
        final(state).top_line + final(state).cursor_line <= usize::MAX,
        final(state).cursor_col < usize::MAX,
        forall|k: int| 0 <= k < final(state).multi_cursors@.len() ==> #[trigger] final(state).multi_cursors@[k].1 < usize::MAX,
{
    let removed = remove_selection(state, lines);
    let ghost mid = *state;
    activate_multi_cursor_from_block(state, a, (b.0, a.1));
    assert(selection_removal(*old(state), mid, old(lines)@, lines@, removed));
    removed
}

/// Remove the selection when `replace` (an edit then follows at the cursor).
fn remove_if(state: &mut FileViewerState, lines: &mut Vec<String>, replace: bool)
    requires
        old(state).top_line + old(state).cursor_line < usize::MAX,
        selection_in_range(*old(state)),
    ensures
        removed_if(*old(state), *final(state), old(lines)@, final(lines)@, replace),
        final(state).top_line + final(state).cursor_line < usize::MAX,
{
    if replace {
        let r = remove_selection(state, lines);
        assert(selection_removal(*old(state), *state, old(lines)@, lines@, r));
    }
}

/// Handle an editing key (see `editing_plan` and `edit_key_done`): with a
/// zero-width block selection over several lines, characters, Backspace and
/// Delete first turn it into cursors; with extra cursors they act at every
/// cursor, and any other key drops the extra cursors.  Returns whether the
/// document changed.
pub fn handle_editing_keys(state: &mut FileViewerState, lines: &mut Vec<String>, key: KeyEvent, visible_lines: usize) -> (changed: bool)
    requires
        old(state).top_line + old(state).cursor_line < usize::MAX,
        old(state).cursor_col < usize::MAX,
        forall|k: int| 0 <= k < old(state).multi_cursors@.len() ==> #[trigger] old(state).multi_cursors@[k].1 < usize::MAX,
        selection_in_range(*old(state)),
    ensures
        edit_key_done(*old(state), *final(state), old(lines)@, final(lines)@, key, visible_lines, changed),
        editing_plan(*old(state), key) is Nothing ==> !changed && final(lines)@ == old(lines)@,
{
    let ghost s0 = *state;
    let ghost l0 = lines@;
    let plan = plan_editing_key(state, key);
    let range = state.selection_range();
    let is_edit_key = match key.code {
        KeyCode::Char(_) | KeyCode::Backspace | KeyCode::Delete => true,
        _ => false,
    };
    if state.block_selection && is_edit_key {
        if let Some((a, b)) = range {
            if a.1 == b.1 && a.0 != b.0 {
                activate_multi_cursor_from_block(state, a, b);
            }
        }
    }
    let ghost s1 = *state;
    assert(cursors_prepared(s0, s1, key));
    match plan {
        EditingPlan::MultiType(c) => return insert_char_multi_cursor(state, lines, c),
        EditingPlan::MultiBackspace => return delete_backward_multi_cursor(state, lines),
        EditingPlan::MultiDelete => return delete_forward_multi_cursor(state, lines),
        _ => {},
    }
    state.clear_multi_cursors();
    let ghost s2 = *state;
    assert(cursors_dropped(s1, s2));
    let r = single_edit_exec(state, lines, plan, range, visible_lines);
    assert(single_edit(s2, *state, l0, lines@, plan, s0.spec_selection_range(), visible_lines, r));
    r
}

/// Make the single-cursor edit `plan` (see `single_edit`).
fn single_edit_exec(state: &mut FileViewerState, lines: &mut Vec<String>, plan: EditingPlan,
    range: Option<(Position, Position)>, visible_lines: usize) -> (r: bool)
    requires
        old(state).top_line + old(state).cursor_line < usize::MAX,
        old(state).cursor_col < usize::MAX,
        old(state).multi_cursors@.len() == 0,
        plan is Nothing || range == old(state).spec_selection_range(),
        range matches Some((a, b)) ==> a.1 < usize::MAX,
        selection_in_range(*old(state)),
    ensures
        single_edit(*old(state), *final(state), old(lines)@, final(lines)@, plan, range, visible_lines, r),
{
    match plan {
        EditingPlan::BlockRemove => match range {
            Some((a, b)) => remove_block_to_cursors(state, lines, a, b),
            None => false,
        },
        EditingPlan::RemoveSelection => remove_selection(state, lines),
        EditingPlan::BlockRetype(c) => match range {
            Some((a, b)) => {
                let r3 = remove_block_to_cursors(state, lines, a, b);
                let ghost s3 = *state;
                let ghost l3 = lines@;
                let r = insert_char_multi_cursor(state, lines, c);
                assert(block_removed(*old(state), s3, old(lines)@, l3, a, b, r3));
                r
            },
            None => false,
        },
        EditingPlan::Type { c, replace } => {
            remove_if(state, lines, replace);
            let ghost s3 = *state;
            let ghost l3 = lines@;
            let r = insert_char(state, lines, c);
            assert(removed_if(*old(state), s3, old(lines)@, l3, replace));
            r
        },
        EditingPlan::Enter { replace } => {
            remove_if(state, lines, replace);
            let ghost s3 = *state;
            let ghost l3 = lines@;
            let r = split_line(state, lines, visible_lines);
            assert(removed_if(*old(state), s3, old(lines)@, l3, replace));
            r
        },
        EditingPlan::Tab { replace } => {
            remove_if(state, lines, replace);
            let ghost s3 = *state;
            let ghost l3 = lines@;
            let r = insert_tab(state, lines);
            assert(removed_if(*old(state), s3, old(lines)@, l3, replace));
            r
        },
        EditingPlan::Backspace => delete_backward(state, lines),
        EditingPlan::Delete => delete_forward(state, lines),
        _ => false,
    }
}

} // verus!

//! The replace prompt: typing and editing the replacement text.
use vstd::prelude::*;
use crate::editor_state::{FileViewerState, FindPrompt};
use crate::find_input::{insert_char_at_pos, remove_char_at, with_char, without_char};
use crate::keys::{KeyCode, KeyEvent};

verus! {

/// `n` is `o` with the replace prompt holding `pattern`, its cursor at
/// `cursor`, its selection `sel`, open when `active`, and the redraw flag
/// `redraw`; nothing else changes.
pub open spec fn replace_prompt_set(o: FileViewerState, n: FileViewerState, pattern: Seq<char>, cursor: int,
    sel: Option<(usize, usize)>, active: bool, redraw: bool) -> bool
{
    &&& n.find_prompt.replace_pattern@ == pattern
    &&& n == (FileViewerState {
        find_prompt: FindPrompt {
            replace_pattern: n.find_prompt.replace_pattern,
            replace_cursor_pos: cursor as usize,
            replace_selection: sel,
            replace_active: active,
            ..o.find_prompt
        },
        needs_redraw: redraw,
        ..o
    })
}

/// `n` is `o` after `key` at the replace prompt, and `r` tells whether the
/// key was consumed as a prompt command:
/// - Esc closes the prompt and clears the text; Enter closes it;
/// - Backspace deletes before the cursor, Left and Right move it, Home and
///   End go to the ends (each dropping the selection);
/// - Ctrl+A selects the whole text (cursor at its end);
/// - a character is inserted at the cursor, the selection dropped first;
///   with Control or Alt, or a control character, only the selection is
///   dropped;
/// - other keys do nothing.
pub open spec fn replace_step(o: FileViewerState, n: FileViewerState, key: KeyEvent, r: bool) -> bool {
    let fp = o.find_prompt;
    let p = fp.replace_pattern@;
    let pos = fp.replace_cursor_pos as int;
    let sel = fp.replace_selection;
    let ctrl = key.modifiers.control;
    match key.code {
        KeyCode::Esc => r && replace_prompt_set(o, n, Seq::empty(), 0, sel, false, true),
        KeyCode::Enter => r && replace_prompt_set(o, n, p, pos, sel, false, true),
        KeyCode::Backspace => !r && if pos > 0 {
            replace_prompt_set(o, n, without_char(p, pos - 1), pos - 1, None, fp.replace_active, true)
        } else {
            n == o
        },
        KeyCode::Left => !r && if pos > 0 {
            replace_prompt_set(o, n, p, pos - 1, None, fp.replace_active, true)
        } else {
            n == o
        },
        KeyCode::Right => !r && if pos < p.len() {
            replace_prompt_set(o, n, p, pos + 1, None, fp.replace_active, true)
        } else {
            n == o
        },
        KeyCode::Home => !r && replace_prompt_set(o, n, p, 0, None, fp.replace_active, true),
        KeyCode::End => !r && replace_prompt_set(o, n, p, p.len() as int, None, fp.replace_active, true),
        KeyCode::Char(c) => if c == '\x01' || (c == 'a' && ctrl) {
            r && if p.len() > 0 {
                replace_prompt_set(o, n, p, p.len() as int, Some((0usize, p.len() as usize)), fp.replace_active, true)
            } else {
                replace_prompt_set(o, n, p, pos, sel, fp.replace_active, true)
            }
        } else if ctrl || key.modifiers.alt || (c as u32) < 0x20 {
            r && replace_prompt_set(o, n, p, pos, None, fp.replace_active, o.needs_redraw)
        } else {
            !r && replace_prompt_set(o, n, with_char(p, pos, c), pos + 1, None, fp.replace_active, true)
        },
        _ => !r && n == o,
    }
}

/// Set the replacement text and its cursor.
#[verifier::rlimit(40)]
fn set_replace_text(state: &mut FileViewerState, pattern: String, cursor: usize)
    ensures
        final(state).find_prompt.replace_pattern == pattern,
        *final(state) == (FileViewerState {
            find_prompt: FindPrompt { replace_pattern: pattern, replace_cursor_pos: cursor, ..old(state).find_prompt },
            ..*old(state)
        }),
{
    state.find_prompt.replace_pattern = pattern;
    state.find_prompt.replace_cursor_pos = cursor;
}

/// Set the replace selection and the open flag.
fn set_replace_flags(state: &mut FileViewerState, sel: Option<(usize, usize)>, active: bool)
    ensures
        *final(state) == (FileViewerState {
            find_prompt: FindPrompt { replace_selection: sel, replace_active: active, ..old(state).find_prompt },
            ..*old(state)
        }),
{
    state.find_prompt.replace_selection = sel;
    state.find_prompt.replace_active = active;
}

/// Set the redraw flag.
fn set_redraw_flag(state: &mut FileViewerState, redraw: bool)
    ensures
        *final(state) == (FileViewerState { needs_redraw: redraw, ..*old(state) }),
{
    state.needs_redraw = redraw;
}

/// The two steps of `set_replace_prompt` give `replace_prompt_set`.
proof fn lemma_replace_set(o: FileViewerState, m: FileViewerState, m2: FileViewerState, n: FileViewerState, pattern: String, cursor: usize,
    sel: Option<(usize, usize)>, active: bool, redraw: bool)
    requires
        m == (FileViewerState {
            find_prompt: FindPrompt { replace_pattern: pattern, replace_cursor_pos: cursor, ..o.find_prompt },
            ..o
        }),
        m2 == (FileViewerState {
            find_prompt: FindPrompt { replace_selection: sel, replace_active: active, ..m.find_prompt },
            ..m
        }),
        n == (FileViewerState { needs_redraw: redraw, ..m2 }),
    ensures
        replace_prompt_set(o, n, pattern@, cursor as int, sel, active, redraw),
{
}

/// Set the replace prompt (see `replace_prompt_set`).
fn set_replace_prompt(state: &mut FileViewerState, pattern: String, cursor: usize, sel: Option<(usize, usize)>,
    active: bool, redraw: bool)
    ensures
        replace_prompt_set(*old(state), *final(state), pattern@, cursor as int, sel, active, redraw),
{
    let ghost o = *state;
    let ghost pv = pattern;
    set_replace_text(state, pattern, cursor);
    let ghost m = *state;
    set_replace_flags(state, sel, active);
    let ghost m2 = *state;
    set_redraw_flag(state, redraw);
    proof {
        lemma_replace_set(o, m, m2, *state, pv, cursor, sel, active, redraw);
    }
}

/// A character key at the replace prompt (see `replace_step`).
fn replace_char_key(state: &mut FileViewerState, key: KeyEvent, c: char) -> (r: bool)
    requires
        key.code == KeyCode::Char(c),
        old(state).find_prompt.replace_cursor_pos < usize::MAX,
    ensures
        replace_step(*old(state), *final(state), key, r),
{
    let p = state.find_prompt.replace_pattern.clone();
    let pos = state.find_prompt.replace_cursor_pos;
    let sel = state.find_prompt.replace_selection;
    let active = state.find_prompt.replace_active;
    let len = p.unicode_len();
    if c == '\x01' || (c == 'a' && key.modifiers.control) {
        if len > 0 {
            set_replace_prompt(state, p, len, Some((0, len)), active, true);
        } else {
            set_replace_prompt(state, p, pos, sel, active, true);
        }
        return true;
    }
    if key.modifiers.control || key.modifiers.alt || (c as u32) < 0x20 {
        let redraw = state.needs_redraw;
        set_replace_prompt(state, p, pos, None, active, redraw);
        return true;
    }
    let np = insert_char_at_pos(p.as_str(), pos, c);
    set_replace_prompt(state, np, pos + 1, None, active, true);
    false
}

/// Handle a key at the replace prompt (see `replace_step`).
pub fn handle_replace_input(state: &mut FileViewerState, key_event: KeyEvent) -> (r: bool)
    requires
        old(state).find_prompt.replace_cursor_pos < usize::MAX,
    ensures
        replace_step(*old(state), *final(state), key_event, r),
{
    let p = state.find_prompt.replace_pattern.clone();
    let pos = state.find_prompt.replace_cursor_pos;
    let sel = state.find_prompt.replace_selection;
    let active = state.find_prompt.replace_active;
    let len = p.unicode_len();
    match key_event.code {
        KeyCode::Esc => {
            set_replace_prompt(state, String::new(), 0, sel, false, true);
            true
        },
        KeyCode::Enter => {
            set_replace_prompt(state, p, pos, sel, false, true);
            true
        },
        KeyCode::Backspace => {
            if pos > 0 {
                let np = remove_char_at(p.as_str(), pos - 1);
                set_replace_prompt(state, np, pos - 1, None, active, true);
            }
            false
        },
        KeyCode::Left => {
            if pos > 0 {
                set_replace_prompt(state, p, pos - 1, None, active, true);
            }
            false
        },
        KeyCode::Right => {
            if pos < len {
                set_replace_prompt(state, p, pos + 1, None, active, true);
            }
            false
        },
        KeyCode::Home => {
            set_replace_prompt(state, p, 0, None, active, true);
            false
        },
        KeyCode::End => {
            set_replace_prompt(state, p, len, None, active, true);
            false
        },
        KeyCode::Char(c) => replace_char_key(state, key_event, c),
        _ => false,
    }
}

} // verus!

//! The go-to-line prompt: editing the typed line number and jumping to it.
use vstd::prelude::*;
use crate::editor_state::{FileViewerState, same_outside_prompt};
use crate::editing::{min_int, sat_sub};
use crate::keys::{KeyCode, KeyEvent};
use crate::text::{chars_of, string_push};

verus! {

// ---------------------------------------------------------------------------
// Line numbers
// ---------------------------------------------------------------------------

/// Whether `c` is an ASCII digit.
pub open spec fn is_digit(c: char) -> bool {
    '0' <= c && c <= '9'
}

/// The number the decimal digits `t` spell.
pub open spec fn decimal_value(t: Seq<char>) -> nat
    decreases t.len(),
{
    if t.len() == 0 {
        0
    } else {
        10 * decimal_value(t.drop_last()) + ((t.last() as u32 - '0' as u32) as nat)
    }
}

/// A line number as `usize` parsing reads it: an optional `+`, then at least
/// one ASCII digit and nothing else, its value fitting in `usize`.
pub open spec fn parse_number(s: Seq<char>) -> Option<nat> {
    let t = unsigned_digits(s);
    if t.len() == 0 || exists|i: int| 0 <= i < t.len() && !is_digit(#[trigger] t[i]) {
        None
    } else if decimal_value(t) > usize::MAX {
        None
    } else {
        Some(decimal_value(t))
    }
}

/// A prefix's value is at most the whole's (more digits, no smaller value).
proof fn lemma_decimal_prefix(t: Seq<char>, k: int)
    requires
        0 <= k <= t.len(),
        forall|i: int| 0 <= i < t.len() ==> is_digit(#[trigger] t[i]),
    ensures
        decimal_value(t.take(k)) <= decimal_value(t),
    decreases t.len() - k,
{
    if k < t.len() {
        lemma_decimal_prefix(t, k + 1);
        assert(t.take(k + 1).drop_last() =~= t.take(k));
    } else {
        assert(t.take(k) =~= t);
    }
}

/// The text after an optional leading `+`.
pub open spec fn unsigned_digits(s: Seq<char>) -> Seq<char> {
    if s.len() > 0 && s[0] == '+' { s.drop_first() } else { s }
}

/// A character that is not a digit makes the text no number.
proof fn lemma_parse_nondigit(s: Seq<char>, k: int)
    requires
        0 <= k < unsigned_digits(s).len(),
        !is_digit(unsigned_digits(s)[k]),
    ensures
        parse_number(s) is None,
{
    let t = unsigned_digits(s);
    assert(exists|i: int| 0 <= i < t.len() && !is_digit(#[trigger] t[i]));
}

/// Too large a value makes the text no number.
proof fn lemma_parse_too_large(s: Seq<char>)
    requires
        decimal_value(unsigned_digits(s)) > usize::MAX,
    ensures
        parse_number(s) is None,
{
}

/// Read a line number (see `parse_number`).
pub fn parse_line_number(s: &str) -> (r: Option<usize>)
    ensures
        match parse_number(s@) {
            Some(v) => r == Some(v as usize),
            None => r is None,
        },
{
    let cs = chars_of(s);
    let start: usize = if cs.len() > 0 && cs[0] == '+' { 1 } else { 0 };
    let ghost t = unsigned_digits(s@);
    assert(t =~= cs@.skip(start as int));
    if start >= cs.len() {
        return None;
    }
    let mut acc: usize = 0;
    let mut i = start;
    assert(t.take(0) =~= Seq::<char>::empty());
    while i < cs.len()
        invariant
            start <= i <= cs@.len(),
            start < cs@.len(),
            cs@ == s@,
            t == cs@.skip(start as int),
            t == unsigned_digits(s@),
            forall|k: int| 0 <= k < i - start ==> is_digit(#[trigger] t[k]),
            acc == decimal_value(t.take(i - start)),
        decreases cs@.len() - i,
    {
        let c = cs[i];
        assert(t[i - start] == c);
        if !('0' <= c && c <= '9') {
            proof {
                lemma_parse_nondigit(s@, i - start);
            }
            return None;
        }
        let d = (c as u32 - '0' as u32) as usize;
        assert(t.take(i - start + 1).drop_last() =~= t.take(i - start));
        if acc > (usize::MAX - d) / 10 {
            proof {
                let v = decimal_value(t.take(i - start + 1));
                assert(v == 10 * acc + d);
                assert(v > usize::MAX) by (nonlinear_arith)
                    requires
                        v == 10 * acc + d,
                        acc > (usize::MAX - d) / 10,
                        d <= 9,
                ;
                if forall|k: int| 0 <= k < t.len() ==> is_digit(#[trigger] t[k]) {
                    lemma_decimal_prefix(t, i - start + 1);
                    lemma_parse_too_large(s@);
                } else {
                    let k = choose|k: int| 0 <= k < t.len() && !is_digit(#[trigger] t[k]);
                    lemma_parse_nondigit(s@, k);
                }
            }
            return None;
        }
        assert(10 * acc + d <= usize::MAX) by (nonlinear_arith)
            requires
                acc <= (usize::MAX - d) / 10,
                d <= 9,
        ;
        acc = acc * 10 + d;
        i = i + 1;
    }
    assert(t.take(t.len() as int) =~= t);
    Some(acc)
}

// ---------------------------------------------------------------------------
// The prompt
// ---------------------------------------------------------------------------

/// `s` with `c` inserted at `pos` (past the end: appended).
pub open spec fn insert_clamped(s: Seq<char>, pos: int, c: char) -> Seq<char> {
    let p = min_int(pos, s.len() as int);
    s.take(p) + seq![c] + s.skip(p)
}

/// The go-to-line prompt: open, typed text, cursor, typing started.
pub struct GotoPrompt {
    pub active: bool,
    pub input: Seq<char>,
    pub pos: int,
    pub started: bool,
}

/// The prompt as `s` holds it.
pub open spec fn prompt_of(s: FileViewerState) -> GotoPrompt {
    GotoPrompt { active: s.goto_line_active, input: s.goto_line_input@, pos: s.goto_line_cursor_pos as int, started: s.goto_line_typing_started }
}

/// The prompt after `key`, and whether the screen is redrawn: Enter closes
/// and empties it; a digit (no modifier) is typed at the cursor, the first
/// key replacing the pre-filled text; Backspace and Delete (no modifier)
/// delete before / at the cursor (the first key clearing the pre-filled
/// text); Left, Right, Home and End move the cursor (the first such key
/// keeping the text and going to its end, for Left and Right); other keys do
/// nothing.
#[verifier::opaque]
pub open spec fn prompt_step(p: GotoPrompt, key: KeyEvent) -> (GotoPrompt, bool) {
    let len = p.input.len() as int;
    let plain = !key.modifiers.shift && !key.modifiers.control && !key.modifiers.alt;
    match key.code {
        KeyCode::Enter => (GotoPrompt { active: false, input: Seq::empty(), pos: 0, started: false }, true),
        KeyCode::Char(c) => if plain && is_digit(c) {
            let (inp, at) = if p.started { (p.input, p.pos) } else { (Seq::empty(), 0) };
            (GotoPrompt { input: insert_clamped(inp, at, c), pos: at + 1, started: true, ..p }, true)
        } else {
            (p, false)
        },
        KeyCode::Backspace => if !plain {
            (p, false)
        } else if !p.started {
            (GotoPrompt { input: Seq::empty(), pos: 0, started: true, ..p }, true)
        } else if p.pos > 0 {
            let input = if p.pos <= len { p.input.take(p.pos - 1) + p.input.skip(p.pos) } else { p.input };
            (GotoPrompt { input, pos: p.pos - 1, ..p }, true)
        } else {
            (p, true)
        },
        KeyCode::Delete => if !plain {
            (p, false)
        } else if !p.started {
            (GotoPrompt { input: Seq::empty(), pos: 0, started: true, ..p }, true)
        } else if p.pos < len {
            (GotoPrompt { input: p.input.take(p.pos) + p.input.skip(p.pos + 1), ..p }, true)
        } else {
            (p, true)
        },
        KeyCode::Left => if !p.started {
            (GotoPrompt { pos: len, started: true, ..p }, true)
        } else if p.pos > 0 {
            (GotoPrompt { pos: p.pos - 1, ..p }, true)
        } else {
            (p, true)
        },
        KeyCode::Right => if !p.started {
            (GotoPrompt { pos: len, started: true, ..p }, true)
        } else if p.pos < len {
            (GotoPrompt { pos: p.pos + 1, ..p }, true)
        } else {
            (p, true)
        },
        KeyCode::Home => (GotoPrompt { pos: 0, started: true, ..p }, true),
        KeyCode::End => (GotoPrompt { pos: len, started: true, ..p }, true),
        _ => (p, false),
    }
}

/// Where Enter jumps: (top line, cursor row) showing line `n` (1-based) about
/// half a screen down, when the typed text is a line number of the document.
#[verifier::opaque]
pub open spec fn goto_jump(input: Seq<char>, len: int, visible_lines: int) -> Option<(int, int)> {
    match parse_number(input) {
        Some(n) => if 0 < n <= len {
            let target = n - 1;
            let top = min_int(sat_sub(target, visible_lines / 2), sat_sub(len, 1));
            Some((top, sat_sub(target, top)))
        } else {
            None
        },
        None => None,
    }
}

/// The prompt's new state: (active, text, cursor, typing started, redraw).
fn prompt_values(state: &FileViewerState, key: KeyEvent) -> (r: (bool, String, usize, bool, bool))
    requires
        state.goto_line_cursor_pos < usize::MAX,
    ensures
        ({
            let (p, redraw) = prompt_step(prompt_of(*state), key);
            &&& r.0 == p.active
            &&& r.1@ == p.input
            &&& r.2 == p.pos
            &&& r.3 == p.started
            &&& r.4 == redraw
        }),
{
    reveal(prompt_step);
    let active = state.goto_line_active;
    let started = state.goto_line_typing_started;
    let pos = state.goto_line_cursor_pos;
    let input = state.goto_line_input.as_str();
    let len = input.unicode_len();
    let plain = !key.modifiers.shift && !key.modifiers.control && !key.modifiers.alt;
    let same = (active, copy_str(input), pos, started, false);
    match key.code {
        KeyCode::Enter => (false, String::new(), 0, false, true),
        KeyCode::Char(c) => {
            if plain && '0' <= c && c <= '9' {
                let (base, at) = if started { (copy_str(input), pos) } else { (String::new(), 0) };
                let n = base.as_str().unicode_len();
                let p = if at < n { at } else { n };
                let mut typed = substring_of(base.as_str(), 0, p);
                string_push(&mut typed, c);
                let rest = substring_of(base.as_str(), p, n);
                typed.append(rest.as_str());
                proof {
                    assert(typed@ =~= insert_clamped(base@, at as int, c));
                }
                (active, typed, at + 1, true, true)
            } else {
                same
            }
        },
        KeyCode::Backspace => {
            if !plain {
                same
            } else if !started {
                (active, String::new(), 0, true, true)
            } else if pos > 0 {
                let text = if pos <= len {
                    let mut t = substring_of(input, 0, pos - 1);
                    let rest = substring_of(input, pos, len);
                    t.append(rest.as_str());
                    t
                } else {
                    copy_str(input)
                };
                (active, text, pos - 1, started, true)
            } else {
                (active, copy_str(input), pos, started, true)
            }
        },
        KeyCode::Delete => {
            if !plain {
                same
            } else if !started {
                (active, String::new(), 0, true, true)
            } else if pos < len {
                let mut t = substring_of(input, 0, pos);
                let rest = substring_of(input, pos + 1, len);
                t.append(rest.as_str());
                (active, t, pos, started, true)
            } else {
                (active, copy_str(input), pos, started, true)
            }
        },
        KeyCode::Left => {
            if !started {
                (active, copy_str(input), len, true, true)
            } else if pos > 0 {
                (active, copy_str(input), pos - 1, started, true)
            } else {
                (active, copy_str(input), pos, started, true)
            }
        },
        KeyCode::Right => {
            if !started {
                (active, copy_str(input), len, true, true)
            } else if pos < len {
                (active, copy_str(input), pos + 1, started, true)
            } else {
                (active, copy_str(input), pos, started, true)
            }
        },
        KeyCode::Home => (active, copy_str(input), 0, true, true),
        KeyCode::End => (active, copy_str(input), len, true, true),
        _ => same,
    }
}

/// A copy of `s`.
fn copy_str(s: &str) -> (r: String)
    ensures
        r@ == s@,
{
    String::from_str(s)
}

/// Characters `from..to` of `s`.
fn substring_of(s: &str, from: usize, to: usize) -> (r: String)
    requires
        from <= to <= s@.len(),
    ensures
        r@ == s@.subrange(from as int, to as int),
{
    String::from_str(s.substring_char(from, to))
}

/// Computes `goto_jump`.
fn jump_of(input: &str, len: usize, visible_lines: usize) -> (r: Option<(usize, usize)>)
    ensures
        match goto_jump(input@, len as int, visible_lines as int) {
            Some((top, cl)) => r matches Some(p) && p.0 == top && p.1 == cl,
            None => r is None,
        },
{
    reveal(goto_jump);
    match parse_line_number(input) {
        Some(n) => {
            if n > 0 && n <= len {
                let target = n - 1;
                let half = visible_lines / 2;
                let t = if target >= half { target - half } else { 0 };
                let last = if len >= 1 { len - 1 } else { 0 };
                let top = if t < last { t } else { last };
                Some((top, if target >= top { target - top } else { 0 }))
            } else {
                None
            }
        },
        None => None,
    }
}

/// The view after a key at the prompt: the jump's (see
/// `handle_goto_line_input`), or the view as it is.
fn view_after(state: &FileViewerState, lines: &[String], key_event: KeyEvent, visible_lines: usize)
    -> (r: (usize, usize, usize, Option<usize>, Option<(usize, usize)>))
    ensures
        ({
            let jump = if key_event.code is Enter {
                goto_jump(state.goto_line_input@, lines@.len() as int, visible_lines as int)
            } else {
                None
            };
            match jump {
                Some((top, cl)) => r.0 == top && r.1 == cl && r.2 == 0 && r.3 is None && r.4 is None,
                None => r.0 == state.top_line && r.1 == state.cursor_line && r.2 == state.cursor_col
                    && r.3 == state.saved_absolute_cursor && r.4 == state.saved_scroll_state,
            }
        }),
{
    let is_enter = match key_event.code { KeyCode::Enter => true, _ => false };
    let jump = if is_enter { jump_of(state.goto_line_input.as_str(), lines.len(), visible_lines) } else { None };
    match jump {
        Some((t, c)) => (t, c, 0, None, None),
        None => (state.top_line, state.cursor_line, state.cursor_col, state.saved_absolute_cursor, state.saved_scroll_state),
    }
}

/// Handle a key while the go-to-line prompt is open (see `prompt_step`):
/// Enter also jumps to the typed line, when it is a line of the document
/// (see `goto_jump`; the cursor goes to its start, and no off-screen cursor
/// is remembered any more).  Returns (quit, close): never either.
pub fn handle_goto_line_input(state: &mut FileViewerState, lines: &[String], key_event: KeyEvent, visible_lines: usize) -> (r: (bool, bool))
    requires
        old(state).goto_line_cursor_pos < usize::MAX,
    ensures
        r == (false, false),
        ({
            let (p, redraw) = prompt_step(prompt_of(*old(state)), key_event);
            let jump = if key_event.code is Enter {
                goto_jump(old(state).goto_line_input@, lines@.len() as int, visible_lines as int)
            } else {
                None
            };
            &&& prompt_of(*final(state)) == p
            &&& final(state).needs_redraw == (redraw || old(state).needs_redraw)
            &&& same_outside_prompt(*final(state), *old(state))
            &&& final(state).undo_history == old(state).undo_history
            &&& final(state).desired_cursor_col == old(state).desired_cursor_col
            &&& final(state).cursor_at_wrap_end == old(state).cursor_at_wrap_end
            &&& final(state).selection_start == old(state).selection_start
            &&& final(state).selection_end == old(state).selection_end
            &&& final(state).selection_anchor == old(state).selection_anchor
            &&& final(state).block_selection == old(state).block_selection
            &&& final(state).multi_cursors == old(state).multi_cursors
            &&& final(state).modified == old(state).modified
            &&& match jump {
                Some((top, cl)) => final(state).top_line == top && final(state).cursor_line == cl && final(state).cursor_col == 0
                    && final(state).saved_absolute_cursor is None && final(state).saved_scroll_state is None,
                None => final(state).top_line == old(state).top_line && final(state).cursor_line == old(state).cursor_line
                    && final(state).cursor_col == old(state).cursor_col
                    && final(state).saved_absolute_cursor == old(state).saved_absolute_cursor
                    && final(state).saved_scroll_state == old(state).saved_scroll_state,
            }
        }),
{
    let (top, cl, col, saved_abs, saved_scroll) = view_after(state, lines, key_event, visible_lines);
    let (active, input, pos, started, redraw) = prompt_values(state, key_event);
    let needs = redraw || state.needs_redraw;
    state.top_line = top;
    state.cursor_line = cl;
    state.cursor_col = col;
    state.saved_absolute_cursor = saved_abs;
    state.saved_scroll_state = saved_scroll;
    state.goto_line_active = active;
    state.goto_line_input = input;
    state.goto_line_cursor_pos = pos;
    state.goto_line_typing_started = started;
    state.needs_redraw = needs;
    (false, false)
}

} // verus!

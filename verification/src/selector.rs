//! The file selector page: how each key moves the selection, scrolls the
//! list, toggles its help screen, or asks the caller to open, close or leave.
use vstd::prelude::*;
use crate::help::handle_help_input;
use crate::keys::{KeyCode, KeyEvent};

verus! {

/// Where the file selector stands.
#[derive(Debug, Clone, Copy, PartialEq, Eq, Structural)]
pub struct SelectorState {
    /// Index of the selected file.
    pub selected: usize,
    /// Index of the first file shown.
    pub scroll: usize,
    /// Whether the help screen is shown instead of the list.
    pub help_active: bool,
    /// First help line shown.
    pub help_scroll: usize,
    /// Whether the whole page must be drawn again.
    pub full_redraw: bool,
}

/// What the caller does after a key.
#[derive(Debug, Clone, Copy, PartialEq, Eq, Structural)]
pub enum SelectorAction {
    /// Keep going.
    Continue,
    /// Leave the selector without choosing a file.
    Cancel,
    /// Open the file at this index.
    Open(usize),
    /// Close (stop tracking) the file at this index; more files remain.
    Remove(usize),
    /// Close the file at this index, the last one, and leave the selector.
    RemoveAndExit(usize),
}

impl SelectorState {
    /// The page as it opens: first file selected, list at the top, drawn in
    /// full.
    pub fn new() -> (s: Self)
        ensures
            s == (SelectorState { selected: 0, scroll: 0, help_active: false, help_scroll: 0, full_redraw: true }),
    {
        SelectorState { selected: 0, scroll: 0, help_active: false, help_scroll: 0, full_redraw: true }
    }
}

/// `a - b`, or 0 below zero.
pub open spec fn sat_sub(a: int, b: int) -> int {
    if a >= b { a - b } else { 0 }
}

/// `a + b`, capped at `usize::MAX`.
pub open spec fn sat_add(a: int, b: int) -> int {
    if a + b <= usize::MAX { a + b } else { usize::MAX as int }
}

/// Scrolling of the help screen: Up and Down by a line, Page Up and Page
/// Down by a page, Home to the top.
pub open spec fn help_scrolled(h: int, code: KeyCode, visible: int) -> int {
    match code {
        KeyCode::Up => sat_sub(h, 1),
        KeyCode::Down => sat_add(h, 1),
        KeyCode::PageUp => sat_sub(h, visible),
        KeyCode::PageDown => sat_add(h, visible),
        KeyCode::Home => 0,
        _ => h,
    }
}

/// The state with the selection and scroll set.
pub open spec fn moved(s: SelectorState, sel: int, scroll: int) -> SelectorState {
    SelectorState { selected: sel as usize, scroll: scroll as usize, ..s }
}

/// The selector after a key on the file list (`n` files, `visible` rows):
/// - q, Esc and Ctrl+C leave; Enter opens the selected file;
/// - Ctrl+W closes the selected file: the selection steps back when it was
///   the last one, the list scrolls back a row when it would end above the
///   bottom, and the selector is left when no file remains;
/// - Up/k and Down/j move by one, keeping the selection on screen;
/// - Page Up and Page Down move the selection and the list by a page (Page
///   Down keeps the last page full);
/// - Home and g go to the first file, End and G (with Shift) to the last.
pub open spec fn list_step(s: SelectorState, n: int, key: KeyEvent, visible: int) -> (SelectorState, SelectorAction) {
    let sel = s.selected as int;
    let sc = s.scroll as int;
    let ctrl = key.modifiers.control;
    let shift = key.modifiers.shift;
    let code = key.code;
    if code == KeyCode::Char('q') || code is Esc || (code == KeyCode::Char('c') && ctrl) {
        (s, SelectorAction::Cancel)
    } else if code is Enter {
        (s, if sel < n { SelectorAction::Open(s.selected) } else { SelectorAction::Continue })
    } else if code == KeyCode::Char('w') && ctrl {
        if sel < n {
            let m = n - 1;
            let nsel = if sel >= m && sel > 0 { sel - 1 } else { sel };
            let nsc = if sc > 0 && sc + visible > m { sc - 1 } else { sc };
            (
                SelectorState { full_redraw: true, ..moved(s, nsel, nsc) },
                if m == 0 { SelectorAction::RemoveAndExit(s.selected) } else { SelectorAction::Remove(s.selected) },
            )
        } else {
            (s, SelectorAction::Continue)
        }
    } else if code is Up || code == KeyCode::Char('k') {
        (if sel > 0 { moved(s, sel - 1, if sel - 1 < sc { sel - 1 } else { sc }) } else { s }, SelectorAction::Continue)
    } else if code is Down || code == KeyCode::Char('j') {
        (
            if sel + 1 < n { moved(s, sel + 1, if sel + 1 >= sc + visible { sel + 1 - visible + 1 } else { sc }) } else { s },
            SelectorAction::Continue,
        )
    } else if code is PageUp {
        (moved(s, sat_sub(sel, visible), sat_sub(sc, visible)), SelectorAction::Continue)
    } else if code is PageDown {
        let nsel = if sel + visible <= sat_sub(n, 1) { sel + visible } else { sat_sub(n, 1) };
        let nsc = if sc + visible + visible > n { sat_sub(n, visible) } else { sc + visible };
        (moved(s, nsel, nsc), SelectorAction::Continue)
    } else if code is Home || (code == KeyCode::Char('g') && !shift) {
        (moved(s, 0, 0), SelectorAction::Continue)
    } else if code is End || (code == KeyCode::Char('G') && shift) {
        (moved(s, sat_sub(n, 1), sat_sub(n, visible)), SelectorAction::Continue)
    } else {
        (s, SelectorAction::Continue)
    }
}

/// The selector after a key: F1 toggles the help screen (back at its top);
/// on the help screen Esc closes it and the other keys scroll it (see
/// `help_scrolled`); otherwise see `list_step`.
pub open spec fn selector_step(s: SelectorState, n: int, key: KeyEvent, visible: int) -> (SelectorState, SelectorAction) {
    if key.code == KeyCode::F(1) {
        (SelectorState { help_active: !s.help_active, help_scroll: 0, full_redraw: true, ..s }, SelectorAction::Continue)
    } else if s.help_active {
        if key.code is Esc {
            (SelectorState { help_active: false, full_redraw: true, ..s }, SelectorAction::Continue)
        } else {
            (
                SelectorState { help_scroll: help_scrolled(s.help_scroll as int, key.code, visible) as usize, ..s },
                SelectorAction::Continue,
            )
        }
    } else {
        list_step(s, n, key, visible)
    }
}

/// `a - b`, or 0 below zero.
fn sub_or_zero(a: usize, b: usize) -> (r: usize)
    ensures
        r == sat_sub(a as int, b as int),
{
    if a >= b { a - b } else { 0 }
}

/// `a + b`, capped at `usize::MAX`.
fn add_capped(a: usize, b: usize) -> (r: usize)
    ensures
        r == sat_add(a as int, b as int),
{
    if a <= usize::MAX - b { a + b } else { usize::MAX }
}

/// Whether `a + b > c`, computed without leaving `usize`.
fn sum_exceeds(a: usize, b: usize, c: usize) -> (r: bool)
    ensures
        r == (a + b > c),
{
    if a > usize::MAX - b { true } else { a + b > c }
}

/// Scroll the help screen (see `help_scrolled`).
fn scroll_help(h: usize, code: KeyCode, visible: usize) -> (r: usize)
    ensures
        r == help_scrolled(h as int, code, visible as int),
{
    match code {
        KeyCode::Up => sub_or_zero(h, 1),
        KeyCode::Down => add_capped(h, 1),
        KeyCode::PageUp => sub_or_zero(h, visible),
        KeyCode::PageDown => add_capped(h, visible),
        KeyCode::Home => 0,
        _ => h,
    }
}

/// A key on the file list (see `list_step`).
fn list_key(s: SelectorState, n: usize, key: KeyEvent, visible: usize) -> (r: (SelectorState, SelectorAction))
    ensures
        r == list_step(s, n as int, key, visible as int),
{
    let sel = s.selected;
    let sc = s.scroll;
    let ctrl = key.modifiers.control;
    let shift = key.modifiers.shift;
    let code = key.code;
    if code == KeyCode::Char('q') || code == KeyCode::Esc || (code == KeyCode::Char('c') && ctrl) {
        (s, SelectorAction::Cancel)
    } else if code == KeyCode::Enter {
        (s, if sel < n { SelectorAction::Open(sel) } else { SelectorAction::Continue })
    } else if code == KeyCode::Char('w') && ctrl {
        if sel < n {
            let m = n - 1;
            let nsel = if sel >= m && sel > 0 { sel - 1 } else { sel };
            let nsc = if sc > 0 && sum_exceeds(sc, visible, m) { sc - 1 } else { sc };
            (
                SelectorState { selected: nsel, scroll: nsc, full_redraw: true, ..s },
                if m == 0 { SelectorAction::RemoveAndExit(sel) } else { SelectorAction::Remove(sel) },
            )
        } else {
            (s, SelectorAction::Continue)
        }
    } else if code == KeyCode::Up || code == KeyCode::Char('k') {
        if sel > 0 {
            let nsel = sel - 1;
            (SelectorState { selected: nsel, scroll: if nsel < sc { nsel } else { sc }, ..s }, SelectorAction::Continue)
        } else {
            (s, SelectorAction::Continue)
        }
    } else if code == KeyCode::Down || code == KeyCode::Char('j') {
        if n > 0 && sel < n - 1 {
            let nsel = sel + 1;
            let nsc = if !sum_exceeds(sc, visible, nsel) { nsel - visible + 1 } else { sc };
            (SelectorState { selected: nsel, scroll: nsc, ..s }, SelectorAction::Continue)
        } else {
            (s, SelectorAction::Continue)
        }
    } else if code == KeyCode::PageUp {
        (SelectorState { selected: sub_or_zero(sel, visible), scroll: sub_or_zero(sc, visible), ..s }, SelectorAction::Continue)
    } else if code == KeyCode::PageDown {
        let last = sub_or_zero(n, 1);
        let nsel = if !sum_exceeds(sel, visible, last) { sel + visible } else { last };
        let nsc = if sum_exceeds(sc, visible, n) || sum_exceeds(sc + visible, visible, n) {
            sub_or_zero(n, visible)
        } else {
            sc + visible
        };
        (SelectorState { selected: nsel, scroll: nsc, ..s }, SelectorAction::Continue)
    } else if code == KeyCode::Home || (code == KeyCode::Char('g') && !shift) {
        (SelectorState { selected: 0, scroll: 0, ..s }, SelectorAction::Continue)
    } else if code == KeyCode::End || (code == KeyCode::Char('G') && shift) {
        (SelectorState { selected: sub_or_zero(n, 1), scroll: sub_or_zero(n, visible), ..s }, SelectorAction::Continue)
    } else {
        (s, SelectorAction::Continue)
    }
}

/// Handle a key on the file selector page with `n_files` files and
/// `visible` list rows (see `selector_step`).
pub fn file_selector_step(s: SelectorState, n_files: usize, key: KeyEvent, visible: usize) -> (r: (SelectorState, SelectorAction))
    ensures
        r == selector_step(s, n_files as int, key, visible as int),
{
    if key.code == KeyCode::F(1) {
        (SelectorState { help_active: !s.help_active, help_scroll: 0, full_redraw: true, ..s }, SelectorAction::Continue)
    } else if s.help_active {
        if handle_help_input(key) {
            (SelectorState { help_active: false, full_redraw: true, ..s }, SelectorAction::Continue)
        } else {
            (SelectorState { help_scroll: scroll_help(s.help_scroll, key.code, visible), ..s }, SelectorAction::Continue)
        }
    } else {
        list_key(s, n_files, key, visible)
    }
}

} // verus!

//! Which handler a key press goes to in the editor: the order in which the
//! menu, the document keys, the help screen, the prompts and the file
//! commands claim a key.
use vstd::prelude::*;
use crate::keys::{KeyCode, KeyEvent};

verus! {

/// The modes that decide where a key goes.
#[derive(Debug, Clone, Copy, PartialEq, Eq, Structural)]
pub struct KeyContext {
    pub menu_active: bool,
    pub help_active: bool,
    pub find_active: bool,
    pub replace_active: bool,
    pub goto_line_active: bool,
}

/// The handler a key goes to.
#[derive(Debug, Clone, Copy, PartialEq, Eq, Structural)]
pub enum KeyCommand {
    /// The open menu bar takes the key.
    Menu,
    /// Select the whole document.
    SelectAll,
    /// Jump to the start of the document (extending the selection).
    DocumentStart { extend: bool },
    /// Jump to the end of the document (extending the selection).
    DocumentEnd { extend: bool },
    WordLeft { extend: bool },
    WordRight { extend: bool },
    ParagraphUp { extend: bool },
    ParagraphDown { extend: bool },
    /// Close the file.
    CloseFile,
    /// Show the help screen.
    ShowHelp,
    /// The help screen takes the key.
    HelpKey,
    /// The find key: open the prompt or toggle filter mode.
    Find,
    /// Open the go-to-line prompt.
    GotoLine,
    FindNext,
    FindPrevious,
    /// The find prompt takes the key.
    FindInput,
    /// The replace prompt takes the key.
    ReplaceInput,
    /// The go-to-line prompt takes the key.
    GotoLineInput,
    Quit,
    Save,
    Undo,
    Redo,
    Copy,
    Paste,
    Cut,
    DeleteWordBackward,
    DeleteWordForward,
    /// Cursor movement and typing.
    Edit,
}

/// Whether `key` is the character `c` with Control held.
pub open spec fn ctrl_char(key: KeyEvent, c: char) -> bool {
    key.modifiers.control && key.code == KeyCode::Char(c)
}

/// Where a key goes, in this order: the open menu; Ctrl+A (not while the
/// find or replace prompt is open, where it falls through to the prompt);
/// Ctrl+Home and Ctrl+End, Ctrl+Left/Right (by word) and Ctrl+Up/Down (by
/// paragraph), Shift extending the selection; Ctrl+W; F1; the open help
/// screen; Ctrl+F; Ctrl+G; F3 (Shift+F3 or F15 backwards); the open find,
/// replace and go-to-line prompts; Ctrl+Q, Ctrl+S, Ctrl+Z, Ctrl+Y, Ctrl+C,
/// Ctrl+V, Ctrl+X; Ctrl or Alt with Backspace or h, and with Delete, delete
/// a word; everything else is movement and typing.
pub open spec fn command_of(ctx: KeyContext, key: KeyEvent) -> KeyCommand {
    let ctrl = key.modifiers.control;
    let shift = key.modifiers.shift;
    let alt = key.modifiers.alt;
    let code = key.code;
    if ctx.menu_active {
        KeyCommand::Menu
    } else if (ctrl_char(key, 'a') || code == KeyCode::Char('\x01')) && !ctx.find_active && !ctx.replace_active {
        KeyCommand::SelectAll
    } else if ctrl && code is Home {
        KeyCommand::DocumentStart { extend: shift }
    } else if ctrl && code is End {
        KeyCommand::DocumentEnd { extend: shift }
    } else if ctrl && code is Left {
        KeyCommand::WordLeft { extend: shift }
    } else if ctrl && code is Right {
        KeyCommand::WordRight { extend: shift }
    } else if ctrl && code is Up {
        KeyCommand::ParagraphUp { extend: shift }
    } else if ctrl && code is Down {
        KeyCommand::ParagraphDown { extend: shift }
    } else if ctrl_char(key, 'w') {
        KeyCommand::CloseFile
    } else if code == KeyCode::F(1) {
        KeyCommand::ShowHelp
    } else if ctx.help_active {
        KeyCommand::HelpKey
    } else if ctrl_char(key, 'f') {
        KeyCommand::Find
    } else if ctrl_char(key, 'g') {
        KeyCommand::GotoLine
    } else if code == KeyCode::F(3) && !shift {
        KeyCommand::FindNext
    } else if (code == KeyCode::F(3) && shift) || code == KeyCode::F(15) {
        KeyCommand::FindPrevious
    } else if ctx.find_active {
        KeyCommand::FindInput
    } else if ctx.replace_active {
        KeyCommand::ReplaceInput
    } else if ctx.goto_line_active {
        KeyCommand::GotoLineInput
    } else if ctrl_char(key, 'q') {
        KeyCommand::Quit
    } else if ctrl_char(key, 's') {
        KeyCommand::Save
    } else if ctrl_char(key, 'z') {
        KeyCommand::Undo
    } else if ctrl_char(key, 'y') {
        KeyCommand::Redo
    } else if ctrl_char(key, 'c') {
        KeyCommand::Copy
    } else if ctrl_char(key, 'v') {
        KeyCommand::Paste
    } else if ctrl_char(key, 'x') {
        KeyCommand::Cut
    } else if (ctrl || alt) && (code is Backspace || code == KeyCode::Char('h')) {
        KeyCommand::DeleteWordBackward
    } else if (ctrl || alt) && code is Delete {
        KeyCommand::DeleteWordForward
    } else {
        KeyCommand::Edit
    }
}

/// Whether `key` is the character `c` with Control held.
fn is_ctrl_char(key: KeyEvent, c: char) -> (b: bool)
    ensures
        b == ctrl_char(key, c),
{
    key.modifiers.control && key.code == KeyCode::Char(c)
}

/// Where a key goes (see `command_of`).
pub fn key_command(ctx: KeyContext, key: KeyEvent) -> (r: KeyCommand)
    ensures
        r == command_of(ctx, key),
{
    let ctrl = key.modifiers.control;
    let shift = key.modifiers.shift;
    let alt = key.modifiers.alt;
    let code = key.code;
    if ctx.menu_active {
        KeyCommand::Menu
    } else if (is_ctrl_char(key, 'a') || code == KeyCode::Char('\x01')) && !ctx.find_active && !ctx.replace_active {
        KeyCommand::SelectAll
    } else if ctrl && code == KeyCode::Home {
        KeyCommand::DocumentStart { extend: shift }
    } else if ctrl && code == KeyCode::End {
        KeyCommand::DocumentEnd { extend: shift }
    } else if ctrl && code == KeyCode::Left {
        KeyCommand::WordLeft { extend: shift }
    } else if ctrl && code == KeyCode::Right {
        KeyCommand::WordRight { extend: shift }
    } else if ctrl && code == KeyCode::Up {
        KeyCommand::ParagraphUp { extend: shift }
    } else if ctrl && code == KeyCode::Down {
        KeyCommand::ParagraphDown { extend: shift }
    } else if is_ctrl_char(key, 'w') {
        KeyCommand::CloseFile
    } else if code == KeyCode::F(1) {
        KeyCommand::ShowHelp
    } else if ctx.help_active {
        KeyCommand::HelpKey
    } else if is_ctrl_char(key, 'f') {
        KeyCommand::Find
    } else if is_ctrl_char(key, 'g') {
        KeyCommand::GotoLine
    } else if code == KeyCode::F(3) && !shift {
        KeyCommand::FindNext
    } else if (code == KeyCode::F(3) && shift) || code == KeyCode::F(15) {
        KeyCommand::FindPrevious
    } else if ctx.find_active {
        KeyCommand::FindInput
    } else if ctx.replace_active {
        KeyCommand::ReplaceInput
    } else if ctx.goto_line_active {
        KeyCommand::GotoLineInput
    } else if is_ctrl_char(key, 'q') {
        KeyCommand::Quit
    } else if is_ctrl_char(key, 's') {
        KeyCommand::Save
    } else if is_ctrl_char(key, 'z') {
        KeyCommand::Undo
    } else if is_ctrl_char(key, 'y') {
        KeyCommand::Redo
    } else if is_ctrl_char(key, 'c') {
        KeyCommand::Copy
    } else if is_ctrl_char(key, 'v') {
        KeyCommand::Paste
    } else if is_ctrl_char(key, 'x') {
        KeyCommand::Cut
    } else if (ctrl || alt) && (code == KeyCode::Backspace || code == KeyCode::Char('h')) {
        KeyCommand::DeleteWordBackward
    } else if (ctrl || alt) && code == KeyCode::Delete {
        KeyCommand::DeleteWordForward
    } else {
        KeyCommand::Edit
    }
}

} // verus!

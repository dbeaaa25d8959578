use ue::key_dispatch::{key_command, KeyCommand, KeyContext};
use ue::keys::{KeyCode, KeyEvent, KeyModifiers};

fn plain() -> KeyContext {
    KeyContext { menu_active: false, help_active: false, find_active: false, replace_active: false, goto_line_active: false }
}

fn ctrl(c: char) -> KeyEvent {
    KeyEvent::new(KeyCode::Char(c), KeyModifiers { shift: false, control: true, alt: false })
}

fn with(code: KeyCode, shift: bool, control: bool, alt: bool) -> KeyEvent {
    KeyEvent::new(code, KeyModifiers { shift, control, alt })
}

#[test]
fn ctrl_a_selects_all_except_at_a_prompt() {
    assert_eq!(key_command(plain(), ctrl('a')), KeyCommand::SelectAll);
    let find = KeyContext { find_active: true, ..plain() };
    assert_eq!(key_command(find, ctrl('a')), KeyCommand::FindInput);
    assert_eq!(key_command(plain(), with(KeyCode::Char('\x01'), false, false, false)), KeyCommand::SelectAll);
}

#[test]
fn ctrl_home_end_and_arrows_with_shift_extend() {
    assert_eq!(key_command(plain(), with(KeyCode::Home, false, true, false)), KeyCommand::DocumentStart { extend: false });
    assert_eq!(key_command(plain(), with(KeyCode::End, true, true, false)), KeyCommand::DocumentEnd { extend: true });
    assert_eq!(key_command(plain(), with(KeyCode::Left, true, true, false)), KeyCommand::WordLeft { extend: true });
    assert_eq!(key_command(plain(), with(KeyCode::Down, false, true, false)), KeyCommand::ParagraphDown { extend: false });
}

#[test]
fn the_menu_takes_every_key() {
    let menu = KeyContext { menu_active: true, ..plain() };
    assert_eq!(key_command(menu, ctrl('q')), KeyCommand::Menu);
}

#[test]
fn help_screen_takes_keys_but_f1_and_ctrl_w_come_first() {
    let help = KeyContext { help_active: true, ..plain() };
    assert_eq!(key_command(help, with(KeyCode::Down, false, false, false)), KeyCommand::HelpKey);
    assert_eq!(key_command(help, with(KeyCode::F(1), false, false, false)), KeyCommand::ShowHelp);
    assert_eq!(key_command(help, ctrl('w')), KeyCommand::CloseFile);
}

#[test]
fn prompts_take_keys_after_the_find_keys() {
    let find = KeyContext { find_active: true, ..plain() };
    assert_eq!(key_command(find, ctrl('f')), KeyCommand::Find);
    assert_eq!(key_command(find, with(KeyCode::F(3), false, false, false)), KeyCommand::FindNext);
    assert_eq!(key_command(find, ctrl('q')), KeyCommand::FindInput);
    let goto = KeyContext { goto_line_active: true, ..plain() };
    assert_eq!(key_command(goto, with(KeyCode::Char('5'), false, false, false)), KeyCommand::GotoLineInput);
}

#[test]
fn file_and_edit_commands() {
    assert_eq!(key_command(plain(), ctrl('q')), KeyCommand::Quit);
    assert_eq!(key_command(plain(), ctrl('s')), KeyCommand::Save);
    assert_eq!(key_command(plain(), ctrl('z')), KeyCommand::Undo);
    assert_eq!(key_command(plain(), ctrl('y')), KeyCommand::Redo);
    assert_eq!(key_command(plain(), ctrl('c')), KeyCommand::Copy);
    assert_eq!(key_command(plain(), ctrl('v')), KeyCommand::Paste);
    assert_eq!(key_command(plain(), ctrl('x')), KeyCommand::Cut);
    assert_eq!(key_command(plain(), ctrl('g')), KeyCommand::GotoLine);
    assert_eq!(key_command(plain(), with(KeyCode::F(3), true, false, false)), KeyCommand::FindPrevious);
    assert_eq!(key_command(plain(), with(KeyCode::Backspace, false, false, true)), KeyCommand::DeleteWordBackward);
    assert_eq!(key_command(plain(), with(KeyCode::Delete, false, true, false)), KeyCommand::DeleteWordForward);
    assert_eq!(key_command(plain(), with(KeyCode::Char('x'), false, false, false)), KeyCommand::Edit);
}

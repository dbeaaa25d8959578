use ue::editor_state::FileViewerState;
use ue::keys::{KeyCode, KeyEvent, KeyModifiers};
use ue::replace_input::handle_replace_input;
use ue::settings::Settings;
use ue::undo::UndoHistory;

fn key(code: KeyCode) -> KeyEvent {
    KeyEvent::new(code, KeyModifiers::none())
}

fn ctrl(c: char) -> KeyEvent {
    KeyEvent::new(KeyCode::Char(c), KeyModifiers { shift: false, control: true, alt: false })
}

#[test]
fn typing_and_editing_the_replacement() {
    let settings = Settings::default();
    let mut state = FileViewerState::new(80, UndoHistory::new(), &settings);
    state.find_prompt.replace_active = true;
    assert!(!handle_replace_input(&mut state, key(KeyCode::Char('a'))));
    assert!(!handle_replace_input(&mut state, key(KeyCode::Char('c'))));
    assert!(!handle_replace_input(&mut state, key(KeyCode::Left)));
    assert!(!handle_replace_input(&mut state, key(KeyCode::Char('b'))));
    assert_eq!(state.find_prompt.replace_pattern, "abc");
    assert_eq!(state.find_prompt.replace_cursor_pos, 2);
    assert!(!handle_replace_input(&mut state, key(KeyCode::Backspace)));
    assert_eq!(state.find_prompt.replace_pattern, "ac");
    assert_eq!(state.find_prompt.replace_cursor_pos, 1);
    handle_replace_input(&mut state, key(KeyCode::End));
    assert_eq!(state.find_prompt.replace_cursor_pos, 2);
    handle_replace_input(&mut state, key(KeyCode::Home));
    assert_eq!(state.find_prompt.replace_cursor_pos, 0);
}

#[test]
fn ctrl_a_selects_and_control_keys_are_consumed() {
    let settings = Settings::default();
    let mut state = FileViewerState::new(80, UndoHistory::new(), &settings);
    state.find_prompt.replace_active = true;
    state.find_prompt.replace_pattern = "xyz".to_string();
    assert!(handle_replace_input(&mut state, ctrl('a')));
    assert_eq!(state.find_prompt.replace_selection, Some((0, 3)));
    assert_eq!(state.find_prompt.replace_cursor_pos, 3);
    assert!(handle_replace_input(&mut state, ctrl('k')));
    assert_eq!(state.find_prompt.replace_selection, None);
    assert_eq!(state.find_prompt.replace_pattern, "xyz");
}

#[test]
fn esc_clears_and_enter_keeps_the_text() {
    let settings = Settings::default();
    let mut state = FileViewerState::new(80, UndoHistory::new(), &settings);
    state.find_prompt.replace_active = true;
    state.find_prompt.replace_pattern = "new".to_string();
    state.find_prompt.replace_cursor_pos = 3;
    assert!(handle_replace_input(&mut state, key(KeyCode::Enter)));
    assert!(!state.find_prompt.replace_active);
    assert_eq!(state.find_prompt.replace_pattern, "new");
    state.find_prompt.replace_active = true;
    assert!(handle_replace_input(&mut state, key(KeyCode::Esc)));
    assert!(!state.find_prompt.replace_active);
    assert_eq!(state.find_prompt.replace_pattern, "");
    assert_eq!(state.find_prompt.replace_cursor_pos, 0);
}

use ue::editor_state::FileViewerState;
use ue::goto_line::{handle_goto_line_input, parse_line_number};
use ue::keys::{KeyCode, KeyEvent, KeyModifiers};
use ue::settings::Settings;
use ue::undo::UndoHistory;

fn create_test_state(settings: &Settings) -> FileViewerState<'_> {
    FileViewerState::new(80, UndoHistory::new(), settings)
}

fn create_test_lines(count: usize) -> Vec<String> {
    (0..count).map(|i| format!("Line {}", i)).collect()
}

fn key(code: KeyCode) -> KeyEvent {
    KeyEvent::new(code, KeyModifiers::none())
}

#[test]
fn goto_line_accepts_digits() {
    let settings = Settings::default();
    let mut state = create_test_state(&settings);
    let lines = create_test_lines(100);

    state.goto_line_active = true;
    state.goto_line_input = "1".to_string();
    state.goto_line_cursor_pos = 1; // Cursor at end
    state.goto_line_typing_started = true;

    let result = handle_goto_line_input(&mut state, &lines, key(KeyCode::Char('5')), 20);
    assert_eq!(result, (false, false));
    assert_eq!(state.goto_line_input, "15");
}

#[test]
fn goto_line_ignores_non_digits() {
    let settings = Settings::default();
    let mut state = create_test_state(&settings);
    let lines = create_test_lines(100);
    state.goto_line_active = true;
    state.goto_line_input = "10".to_string();
    let result = handle_goto_line_input(&mut state, &lines, key(KeyCode::Char('a')), 20);
    assert_eq!(result, (false, false));
    assert_eq!(state.goto_line_input, "10");
}

#[test]
fn goto_line_backspace_deletes_char() {
    let settings = Settings::default();
    let mut state = create_test_state(&settings);
    let lines = create_test_lines(100);

    state.goto_line_active = true;
    state.goto_line_input = "123".to_string();
    state.goto_line_cursor_pos = 3; // Cursor at end
    state.goto_line_typing_started = true; // Already typing, so delete

    let result = handle_goto_line_input(&mut state, &lines, key(KeyCode::Backspace), 20);
    assert_eq!(result, (false, false));
    assert_eq!(state.goto_line_input, "12");
}

#[test]
fn goto_line_first_digit_replaces_prefill() {
    let settings = Settings::default();
    let mut state = create_test_state(&settings);
    let lines = create_test_lines(100);

    state.goto_line_active = true;
    state.goto_line_input = "42".to_string(); // Pre-filled
    state.goto_line_typing_started = false; // Not yet typing

    let result = handle_goto_line_input(&mut state, &lines, key(KeyCode::Char('5')), 20);
    assert_eq!(result, (false, false));
    assert_eq!(state.goto_line_input, "5"); // Should replace, not append
    assert!(state.goto_line_typing_started);
}

#[test]
fn goto_line_enter_jumps_to_line() {
    let settings = Settings::default();
    let mut state = create_test_state(&settings);
    let lines = create_test_lines(100);
    state.goto_line_active = true;
    state.goto_line_input = "50".to_string();
    state.top_line = 0;
    state.cursor_line = 0;
    let result = handle_goto_line_input(&mut state, &lines, key(KeyCode::Enter), 20);
    assert_eq!(result, (false, false));
    assert_eq!(state.absolute_line(), 49);
    assert!(!state.goto_line_active);
    assert_eq!(state.goto_line_input, "");
}

#[test]
fn goto_line_arrow_keys_unselect() {
    let settings = Settings::default();
    let mut state = create_test_state(&settings);
    let lines = create_test_lines(100);

    state.goto_line_active = true;
    state.goto_line_input = "50".to_string();
    state.goto_line_typing_started = false; // Selected

    let result = handle_goto_line_input(&mut state, &lines, key(KeyCode::Left), 20);
    assert_eq!(result, (false, false));

    // Still in goto_line mode, but typing started (unselected)
    assert!(state.goto_line_active);
    assert!(state.goto_line_typing_started);
    assert_eq!(state.goto_line_input, "50"); // Input unchanged
}

#[test]
fn goto_line_centers_view() {
    let settings = Settings::default();
    let mut state = create_test_state(&settings);
    let lines = create_test_lines(100);
    let visible_lines = 20;
    state.goto_line_active = true;
    state.goto_line_input = "50".to_string();
    let _ = handle_goto_line_input(&mut state, &lines, key(KeyCode::Enter), visible_lines);
    assert!(state.top_line >= 35 && state.top_line <= 45);
    assert_eq!(state.absolute_line(), 49);
}

#[test]
fn goto_line_enter_out_of_range_only_closes() {
    let settings = Settings::default();
    let mut state = create_test_state(&settings);
    let lines = create_test_lines(10);
    state.top_line = 3;
    state.cursor_line = 2;
    state.goto_line_active = true;
    state.goto_line_input = "11".to_string();
    let _ = handle_goto_line_input(&mut state, &lines, key(KeyCode::Enter), 20);
    assert!(!state.goto_line_active);
    assert_eq!((state.top_line, state.cursor_line), (3, 2));
    state.goto_line_active = true;
    state.goto_line_input = "0".to_string();
    let _ = handle_goto_line_input(&mut state, &lines, key(KeyCode::Enter), 20);
    assert_eq!((state.top_line, state.cursor_line), (3, 2));
}

#[test]
fn goto_line_cursor_moves_and_deletes() {
    let settings = Settings::default();
    let mut state = create_test_state(&settings);
    let lines = create_test_lines(10);
    state.goto_line_active = true;
    state.goto_line_input = "123".to_string();
    state.goto_line_cursor_pos = 3;
    state.goto_line_typing_started = false;
    let _ = handle_goto_line_input(&mut state, &lines, key(KeyCode::Home), 20);
    assert_eq!(state.goto_line_cursor_pos, 0);
    let _ = handle_goto_line_input(&mut state, &lines, key(KeyCode::Delete), 20);
    assert_eq!(state.goto_line_input, "23");
    let _ = handle_goto_line_input(&mut state, &lines, key(KeyCode::Right), 20);
    let _ = handle_goto_line_input(&mut state, &lines, key(KeyCode::Char('7')), 20);
    assert_eq!(state.goto_line_input, "273");
    assert_eq!(state.goto_line_cursor_pos, 2);
    let _ = handle_goto_line_input(&mut state, &lines, key(KeyCode::End), 20);
    assert_eq!(state.goto_line_cursor_pos, 3);
    let ctrl = KeyEvent::new(KeyCode::Char('1'), KeyModifiers { shift: false, control: true, alt: false });
    let _ = handle_goto_line_input(&mut state, &lines, ctrl, 20);
    assert_eq!(state.goto_line_input, "273");
}

#[test]
fn parse_line_number_reads_usize() {
    assert_eq!(parse_line_number("42"), Some(42));
    assert_eq!(parse_line_number("+7"), Some(7));
    assert_eq!(parse_line_number(""), None);
    assert_eq!(parse_line_number("+"), None);
    assert_eq!(parse_line_number("4a"), None);
    assert_eq!(parse_line_number("-1"), None);
    assert_eq!(parse_line_number("99999999999999999999999"), None);
    assert_eq!(parse_line_number("18446744073709551615"), Some(usize::MAX));
}

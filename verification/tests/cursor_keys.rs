use ue::cursor_keys::handle_navigation;
use ue::editor_state::FileViewerState;
use ue::keys::KeyCode;
use ue::settings::Settings;
use ue::undo::UndoHistory;

fn create_test_state(settings: &Settings) -> FileViewerState<'_> {
    FileViewerState::new(80, UndoHistory::new(), settings)
}

fn create_test_lines(count: usize) -> Vec<String> {
    (0..count).map(|i| format!("Line {}", i)).collect()
}

fn strings(v: &[&str]) -> Vec<String> {
    v.iter().map(|s| s.to_string()).collect()
}

#[test]
fn left_at_line_start_moves_to_previous_line_end() {
    let settings = Settings::default();
    let mut state = create_test_state(&settings);
    let lines = strings(&["abc", "de"]);
    state.cursor_line = 1;
    assert!(handle_navigation(&mut state, &lines, KeyCode::Left, 20));
    assert_eq!((state.cursor_line, state.cursor_col, state.desired_cursor_col), (0, 3, 3));
}

#[test]
fn left_at_document_start_does_not_move() {
    let settings = Settings::default();
    let mut state = create_test_state(&settings);
    let lines = strings(&["abc"]);
    assert!(!handle_navigation(&mut state, &lines, KeyCode::Left, 20));
    assert_eq!((state.top_line, state.cursor_line, state.cursor_col), (0, 0, 0));
}

#[test]
fn right_at_line_end_moves_to_next_line_start() {
    let settings = Settings::default();
    let mut state = create_test_state(&settings);
    let lines = strings(&["abc", "de"]);
    state.cursor_col = 3;
    assert!(handle_navigation(&mut state, &lines, KeyCode::Right, 20));
    assert_eq!((state.cursor_line, state.cursor_col), (1, 0));
    state.cursor_col = 2;
    assert!(!handle_navigation(&mut state, &lines, KeyCode::Right, 20));
}

#[test]
fn right_at_bottom_row_scrolls() {
    let settings = Settings::default();
    let mut state = create_test_state(&settings);
    let lines = create_test_lines(30);
    state.cursor_line = 19;
    state.cursor_col = 7; // end of "Line 19"
    assert!(handle_navigation(&mut state, &lines, KeyCode::Right, 20));
    assert_eq!((state.top_line, state.cursor_line, state.cursor_col), (1, 19, 0));
}

#[test]
fn home_toggles_between_first_non_blank_and_column_zero() {
    let settings = Settings::default();
    let mut state = create_test_state(&settings);
    let lines = strings(&["    abc"]);
    state.cursor_col = 6;
    assert!(handle_navigation(&mut state, &lines, KeyCode::Home, 20));
    assert_eq!(state.cursor_col, 4);
    assert!(handle_navigation(&mut state, &lines, KeyCode::Home, 20));
    assert_eq!(state.cursor_col, 0);
    assert!(handle_navigation(&mut state, &lines, KeyCode::Home, 20));
    assert_eq!(state.cursor_col, 4);
}

#[test]
fn end_goes_to_byte_length() {
    let settings = Settings::default();
    let mut state = create_test_state(&settings);
    let lines = strings(&["h\u{e9}llo"]);
    assert!(handle_navigation(&mut state, &lines, KeyCode::End, 20));
    assert_eq!((state.cursor_col, state.desired_cursor_col), (6, 6));
}

#[test]
fn page_down_and_up_move_the_view_a_screen() {
    let settings = Settings::default();
    let mut state = create_test_state(&settings);
    let lines = create_test_lines(100);
    assert!(handle_navigation(&mut state, &lines, KeyCode::PageDown, 20));
    assert_eq!(state.top_line, 20);
    state.top_line = 70;
    assert!(handle_navigation(&mut state, &lines, KeyCode::PageDown, 20));
    assert_eq!(state.top_line, 80, "not past the last screenful");
    assert!(handle_navigation(&mut state, &lines, KeyCode::PageUp, 20));
    assert_eq!(state.top_line, 60);
    state.top_line = 5;
    assert!(handle_navigation(&mut state, &lines, KeyCode::PageUp, 20));
    assert_eq!(state.top_line, 0);
}

#[test]
fn page_down_keeps_cursor_on_a_line() {
    let settings = Settings::default();
    let mut state = create_test_state(&settings);
    let lines = create_test_lines(10);
    state.cursor_line = 8;
    assert!(handle_navigation(&mut state, &lines, KeyCode::PageDown, 4));
    assert_eq!(state.top_line, 4);
    assert_eq!(state.cursor_line, 5, "line 9, the last one");
}

#[test]
fn off_screen_cursor_comes_back_to_saved_view() {
    let settings = Settings::default();
    let mut state = create_test_state(&settings);
    let lines = create_test_lines(100);
    state.top_line = 30;
    state.cursor_line = 0;
    state.cursor_col = 2;
    state.saved_absolute_cursor = Some(15);
    state.saved_scroll_state = Some((10, 5));
    assert!(handle_navigation(&mut state, &lines, KeyCode::Left, 20));
    assert_eq!((state.top_line, state.cursor_line, state.cursor_col), (10, 5, 1));
    assert_eq!(state.saved_absolute_cursor, None);
    assert_eq!(state.saved_scroll_state, None);
}

#[test]
fn off_screen_cursor_without_saved_view_is_centred() {
    let settings = Settings::default();
    let mut state = create_test_state(&settings);
    let lines = create_test_lines(100);
    state.top_line = 0;
    state.saved_absolute_cursor = Some(50);
    assert!(!handle_navigation(&mut state, &lines, KeyCode::Other, 20));
    assert_eq!((state.top_line, state.cursor_line), (40, 10));
    assert_eq!(state.saved_absolute_cursor, None);
}

#[test]
fn horizontal_scroll_follows_cursor_without_wrapping() {
    let settings = Settings::default();
    let mut state = create_test_state(&settings);
    state.line_wrapping_override = Some(false);
    state.term_width = 20; // text width 15
    let lines = vec!["x".repeat(40)];
    state.cursor_col = 14;
    assert!(handle_navigation(&mut state, &lines, KeyCode::Right, 20));
    assert_eq!(state.cursor_col, 15);
    assert_eq!(state.horizontal_scroll_offset, 1);
    assert!(handle_navigation(&mut state, &lines, KeyCode::Home, 20));
    assert_eq!(state.horizontal_scroll_offset, 0);
}

#[test]
fn moving_clears_wrap_warning() {
    let settings = Settings::default();
    let mut state = create_test_state(&settings);
    let lines = strings(&["abc"]);
    state.wrap_warning_pending = Some("next".to_string());
    assert!(!handle_navigation(&mut state, &lines, KeyCode::Other, 20));
    assert_eq!(state.wrap_warning_pending, Some("next".to_string()));
    assert!(handle_navigation(&mut state, &lines, KeyCode::End, 20));
    assert_eq!(state.wrap_warning_pending, None);
}

#[test]
fn up_and_down_keys_keep_column_inside_line() {
    let settings = Settings::default();
    let mut state = create_test_state(&settings);
    let lines = strings(&["abcdef", "ab", "abcdef"]);
    state.cursor_col = 5;
    assert!(handle_navigation(&mut state, &lines, KeyCode::Down, 20));
    assert_eq!((state.cursor_line, state.cursor_col), (1, 2));
    assert!(handle_navigation(&mut state, &lines, KeyCode::Down, 20));
    assert_eq!((state.cursor_line, state.cursor_col), (2, 5));
    assert!(handle_navigation(&mut state, &lines, KeyCode::Up, 20));
    assert_eq!((state.cursor_line, state.cursor_col), (1, 2));
}

use ue::editor_state::FileViewerState;
use ue::keys::KeyCode;
use ue::settings::Settings;
use ue::undo::UndoHistory;
use ue::viewport::handle_viewport_scroll;

fn strings(n: usize) -> Vec<String> {
    (0..n).map(|i| format!("line {}", i)).collect()
}

#[test]
fn alt_down_parks_the_cursor_above_the_view() {
    let lines = strings(10);
    let settings = Settings::default();
    let mut state = FileViewerState::new(80, UndoHistory::new(), &settings);
    assert!(handle_viewport_scroll(&mut state, &lines, KeyCode::Down, 5));
    assert_eq!(state.top_line, 1);
    assert_eq!(state.cursor_line, 0);
    assert_eq!(state.saved_absolute_cursor, Some(0));
    assert!(handle_viewport_scroll(&mut state, &lines, KeyCode::Up, 5));
    assert_eq!(state.top_line, 0);
    assert_eq!(state.cursor_line, 0);
    assert_eq!(state.saved_absolute_cursor, None);
}

#[test]
fn alt_up_keeps_a_cursor_below_the_view_parked() {
    let lines = strings(10);
    let settings = Settings::default();
    let mut state = FileViewerState::new(80, UndoHistory::new(), &settings);
    state.top_line = 3;
    state.cursor_line = 4;
    assert!(handle_viewport_scroll(&mut state, &lines, KeyCode::Up, 5));
    assert_eq!(state.top_line, 2);
    assert_eq!(state.cursor_line, 5);
    assert_eq!(state.saved_absolute_cursor, Some(7));
}

#[test]
fn alt_up_at_the_top_and_alt_down_at_the_last_line_do_nothing() {
    let lines = strings(3);
    let settings = Settings::default();
    let mut state = FileViewerState::new(80, UndoHistory::new(), &settings);
    assert!(!handle_viewport_scroll(&mut state, &lines, KeyCode::Up, 5));
    state.top_line = 2;
    state.cursor_line = 0;
    assert!(!handle_viewport_scroll(&mut state, &lines, KeyCode::Down, 5));
    assert_eq!(state.top_line, 2);
}

#[test]
fn alt_right_and_left_scroll_horizontally_without_wrapping() {
    let lines = vec!["x".repeat(100)];
    let settings = Settings::default();
    let mut state = FileViewerState::new(40, UndoHistory::new(), &settings);
    state.line_wrapping_override = Some(false);
    assert!(handle_viewport_scroll(&mut state, &lines, KeyCode::Right, 5));
    assert_eq!(state.horizontal_scroll_offset, 4);
    state.horizontal_scroll_offset = 63;
    assert!(handle_viewport_scroll(&mut state, &lines, KeyCode::Right, 5));
    assert_eq!(state.horizontal_scroll_offset, 65);
    assert!(!handle_viewport_scroll(&mut state, &lines, KeyCode::Right, 5));
    state.horizontal_scroll_offset = 2;
    assert!(handle_viewport_scroll(&mut state, &lines, KeyCode::Left, 5));
    assert_eq!(state.horizontal_scroll_offset, 0);
    assert!(!handle_viewport_scroll(&mut state, &lines, KeyCode::Left, 5));
}

#[test]
fn alt_left_right_do_nothing_when_wrapping() {
    let lines = vec!["x".repeat(100)];
    let settings = Settings::default();
    let mut state = FileViewerState::new(40, UndoHistory::new(), &settings);
    assert!(!handle_viewport_scroll(&mut state, &lines, KeyCode::Right, 5));
    assert_eq!(state.horizontal_scroll_offset, 0);
}

use ue::editor_state::FileViewerState;
use ue::settings::Settings;
use ue::undo::UndoHistory;
use ue::vertical::{handle_down_navigation, handle_up_navigation};

fn create_test_state(settings: &Settings) -> FileViewerState<'_> {
    FileViewerState::new(80, UndoHistory::new(), settings)
}

fn create_test_lines(count: usize) -> Vec<String> {
    (0..count).map(|i| format!("Line {}", i)).collect()
}

/// What the Up key does: move, then keep the column inside the line.
fn press_up(state: &mut FileViewerState, lines: &[String], visible_lines: usize) {
    handle_up_navigation(state, lines, visible_lines);
    let refs: Vec<&str> = lines.iter().map(|s| s.as_str()).collect();
    state.adjust_cursor_col(&refs);
}

/// What the Down key does: move, then keep the column inside the line.
fn press_down(state: &mut FileViewerState, lines: &[String], visible_lines: usize) {
    handle_down_navigation(state, lines, visible_lines);
    let refs: Vec<&str> = lines.iter().map(|s| s.as_str()).collect();
    state.adjust_cursor_col(&refs);
}

#[test]
fn arrow_up_on_line_moves_to_previous_line() {
    let settings = Settings::default();
    let mut state = create_test_state(&settings);
    let lines = vec!["line one".to_string(), "line two".to_string()];
    state.top_line = 0;
    state.cursor_line = 1;
    state.cursor_col = 3;
    press_up(&mut state, &lines, 20);
    assert_eq!(state.cursor_line, 0, "cursor should move to previous line");
    assert_eq!(state.cursor_col, 3, "cursor column should be preserved");
}

#[test]
fn cursor_column_memory_through_short_line() {
    let settings = Settings::default();
    let mut state = create_test_state(&settings);
    let lines = vec!["0123456789".to_string(), "".to_string(), "0123456789".to_string()];
    state.top_line = 0;
    state.cursor_line = 0;
    state.cursor_col = 5;
    press_down(&mut state, &lines, 20);
    assert_eq!(state.cursor_line, 1, "cursor should move to line 1");
    assert_eq!(state.cursor_col, 0, "cursor should be at column 0 on empty line");
    assert_eq!(state.desired_cursor_col, 5, "desired column should remain 5");
    press_down(&mut state, &lines, 20);
    assert_eq!(state.cursor_line, 2, "cursor should move to line 2");
    assert_eq!(state.cursor_col, 5, "cursor should restore to column 5, not column 0");
}

#[test]
fn arrow_up_at_top_scrolls_if_not_at_file_start() {
    let settings = Settings::default();
    let mut state = create_test_state(&settings);
    let lines = create_test_lines(50);
    state.top_line = 10;
    state.cursor_line = 0;
    state.cursor_col = 0;
    press_up(&mut state, &lines, 20);
    assert_eq!(state.top_line, 9, "should scroll up by one line");
    assert_eq!(state.cursor_line, 0, "cursor should stay at viewport top");
}

#[test]
fn wrapped_line_navigation_down_within_same_logical_line() {
    let settings = Settings::default();
    let mut state = create_test_state(&settings);
    state.term_width = 40;
    let lines = vec!["x".repeat(100)];
    state.top_line = 0;
    state.cursor_line = 0;
    state.cursor_col = 10;
    press_down(&mut state, &lines, 20);
    assert_eq!(state.cursor_line, 0, "should stay on same logical line");
    assert!(state.cursor_col > 10, "cursor should advance within wrapped line");
}

#[test]
fn wrapped_line_navigation_up_within_same_logical_line() {
    let settings = Settings::default();
    let mut state = create_test_state(&settings);
    state.term_width = 40;
    let lines = vec!["x".repeat(100)];
    state.top_line = 0;
    state.cursor_line = 0;
    state.cursor_col = 50;
    press_up(&mut state, &lines, 20);
    assert_eq!(state.cursor_line, 0, "should stay on same logical line");
    assert!(state.cursor_col < 50, "cursor should move back within wrapped line");
}

#[test]
fn wrapped_moves_are_one_text_width() {
    let settings = Settings::default();
    let mut state = create_test_state(&settings);
    state.term_width = 40; // text width 35 (gutter 4, scrollbar 1)
    let lines = vec!["x".repeat(100)];
    state.cursor_col = 10;
    handle_down_navigation(&mut state, &lines, 20);
    assert_eq!(state.cursor_col, 45);
    assert_eq!(state.desired_cursor_col, 10);
    handle_up_navigation(&mut state, &lines, 20);
    assert_eq!(state.cursor_col, 10);
}

#[test]
fn up_from_first_segment_lands_on_last_segment_of_previous_line() {
    let settings = Settings::default();
    let mut state = create_test_state(&settings);
    state.term_width = 40;
    let lines = vec!["x".repeat(100), "abc".to_string()];
    state.cursor_line = 1;
    state.cursor_col = 2;
    handle_up_navigation(&mut state, &lines, 20);
    assert_eq!((state.top_line, state.cursor_line, state.cursor_col), (0, 0, 72));
    assert_eq!(state.desired_cursor_col, 2);
}

#[test]
fn down_from_last_segment_goes_to_first_segment_of_next_line() {
    let settings = Settings::default();
    let mut state = create_test_state(&settings);
    state.term_width = 40;
    let lines = vec!["x".repeat(100), "y".repeat(100), "z".repeat(100)];
    state.cursor_col = 80;
    handle_down_navigation(&mut state, &lines, 5);
    assert_eq!((state.top_line, state.cursor_line, state.cursor_col), (0, 1, 10));
    assert_eq!(state.desired_cursor_col, 80);
    state.cursor_col = 80;
    handle_down_navigation(&mut state, &lines, 5);
    // Lines 0 and 1 fill 6 rows, more than the 5 visible: the view scrolls.
    assert_eq!((state.top_line, state.cursor_line, state.cursor_col), (1, 1, 10));
}

#[test]
fn up_at_document_start_does_nothing_but_remembers_column() {
    let settings = Settings::default();
    let mut state = create_test_state(&settings);
    let lines = create_test_lines(3);
    state.cursor_col = 4;
    handle_up_navigation(&mut state, &lines, 20);
    assert_eq!((state.top_line, state.cursor_line, state.cursor_col), (0, 0, 4));
    assert_eq!(state.desired_cursor_col, 4);
}

#[test]
fn down_on_last_line_does_nothing() {
    let settings = Settings::default();
    let mut state = create_test_state(&settings);
    state.line_wrapping_override = Some(false);
    let lines = create_test_lines(3);
    state.cursor_line = 2;
    state.cursor_col = 1;
    handle_down_navigation(&mut state, &lines, 20);
    assert_eq!((state.top_line, state.cursor_line, state.cursor_col), (0, 2, 1));
}

#[test]
fn down_at_bottom_row_scrolls_without_wrapping() {
    let settings = Settings::default();
    let mut state = create_test_state(&settings);
    state.line_wrapping_override = Some(false);
    let lines = create_test_lines(30);
    state.cursor_line = 19;
    state.cursor_col = 2;
    handle_down_navigation(&mut state, &lines, 20);
    assert_eq!((state.top_line, state.cursor_line, state.cursor_col), (1, 19, 2));
}

#[test]
fn column_is_clamped_to_byte_length_without_wrapping() {
    let settings = Settings::default();
    let mut state = create_test_state(&settings);
    state.line_wrapping_override = Some(false);
    let lines = vec!["ab".to_string(), "abcdef".to_string()];
    state.cursor_line = 1;
    state.cursor_col = 5;
    handle_up_navigation(&mut state, &lines, 20);
    assert_eq!((state.cursor_line, state.cursor_col), (0, 2));
    handle_down_navigation(&mut state, &lines, 20);
    assert_eq!((state.cursor_line, state.cursor_col), (1, 5));
}

#[test]
fn filter_moves_between_shown_lines() {
    let settings = Settings::default();
    let mut state = create_test_state(&settings);
    state.line_wrapping_override = Some(false);
    state.filter_active = true;
    state.last_search_pattern = Some("foo".to_string());
    let lines: Vec<String> = ["foo a", "bar", "baz", "foo b", "qux"].iter().map(|s| s.to_string()).collect();
    state.cursor_line = 3;
    state.cursor_col = 2;
    handle_up_navigation(&mut state, &lines, 20);
    assert_eq!((state.top_line, state.cursor_line, state.cursor_col), (0, 0, 2));
    handle_down_navigation(&mut state, &lines, 20);
    assert_eq!((state.top_line, state.cursor_line, state.cursor_col), (0, 3, 2));
    // No shown line below: nothing moves.
    handle_down_navigation(&mut state, &lines, 20);
    assert_eq!((state.top_line, state.cursor_line), (0, 3));
}

#[test]
fn filter_up_scrolls_to_line_above_view() {
    let settings = Settings::default();
    let mut state = create_test_state(&settings);
    state.line_wrapping_override = Some(false);
    state.filter_active = true;
    state.last_search_pattern = Some("foo".to_string());
    let lines: Vec<String> = ["foo a", "bar", "baz", "foo b", "qux"].iter().map(|s| s.to_string()).collect();
    state.top_line = 2;
    state.cursor_line = 1;
    handle_up_navigation(&mut state, &lines, 20);
    assert_eq!((state.top_line, state.cursor_line), (0, 0));
}

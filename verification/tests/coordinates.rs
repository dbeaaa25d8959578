use ue::coordinates::{
    adjust_view_for_resize, calculate_cursor_visual_line, calculate_text_width,
    calculate_visual_lines_to_cursor, calculate_wrapped_lines_for_line, line_number_width,
    visual_col_to_char_index, visual_to_logical_position, visual_width, visual_width_up_to,
};
use ue::editor_state::FileViewerState;
use ue::settings::Settings;
use ue::undo::UndoHistory;

/// Create a minimal test state with term_width=80 and default settings.
fn make_state(settings: &Settings) -> FileViewerState<'_> {
    let mut s = FileViewerState::new(80, UndoHistory::new(), settings);
    s.term_width = 80;
    s
}

// --- adjust_view_for_resize ---

#[test]
fn resize_keeps_scroll_when_cursor_visible_and_space_expands() {
    let (top, rel) = adjust_view_for_resize(50, 60, 100, 200);
    assert_eq!(top, 50);
    assert_eq!(rel, 10);
}

#[test]
fn resize_scrolls_up_if_cursor_above_top() {
    let (top, rel) = adjust_view_for_resize(30, 10, 25, 100);
    assert_eq!(top, 10);
    assert_eq!(rel, 0);
}

#[test]
fn resize_scrolls_down_if_cursor_below_bottom() {
    let (top, rel) = adjust_view_for_resize(0, 30, 20, 200);
    assert_eq!(top, 11);
    assert_eq!(rel, 19);
}

#[test]
fn resize_shrink_preserves_cursor_visibility() {
    let (top, rel) = adjust_view_for_resize(50, 65, 10, 120);
    assert_eq!(top, 56);
    assert_eq!(rel, 9);
}

#[test]
fn empty_file_returns_zeroes() {
    let (top, rel) = adjust_view_for_resize(5, 5, 10, 0);
    assert_eq!(top, 0);
    assert_eq!(rel, 0);
}

// --- visual_width ---

#[test]
fn test_visual_width_empty_string() {
    assert_eq!(visual_width("", 4), 0);
}

#[test]
fn test_visual_width_no_tabs() {
    assert_eq!(visual_width("hello", 4), 5);
}

#[test]
fn test_visual_width_single_tab_at_start() {
    assert_eq!(visual_width("\t", 4), 4);
    assert_eq!(visual_width("\t", 8), 8);
}

#[test]
fn test_visual_width_tab_in_middle() {
    assert_eq!(visual_width("a\tb",   4), 5); // 'a'(1) → tab→4 → 'b'(5)
    assert_eq!(visual_width("ab\tc",  4), 5); // 'ab'(2) → tab→4 → 'c'(5)
    assert_eq!(visual_width("abc\td", 4), 5); // 'abc'(3) → tab→4 → 'd'(5)
}

#[test]
fn test_visual_width_multiple_tabs() {
    assert_eq!(visual_width("\t\t",  4), 8);
    assert_eq!(visual_width("a\t\t", 4), 8);
}

#[test]
fn test_visual_width_tab_width_8() {
    assert_eq!(visual_width("\t",        8), 8);
    assert_eq!(visual_width("a\tb",      8), 9);
    assert_eq!(visual_width("abcdefg\tx", 8), 9);
}

#[test]
fn test_visual_width_mixed_content() {
    // "hello\tworld\t!" with tab_width=4:
    // "hello"(5) → tab→8, "world"(13) → tab→16, "!"(17)
    assert_eq!(visual_width("hello\tworld\t!", 4), 17);
}

#[test]
fn test_visual_width_only_tabs() {
    assert_eq!(visual_width("\t\t\t", 4), 12);
    assert_eq!(visual_width("\t\t\t", 8), 24);
}

// --- visual_width_up_to ---

#[test]
fn test_visual_width_up_to_empty() {
    assert_eq!(visual_width_up_to("", 0, 4), 0);
    assert_eq!(visual_width_up_to("hello", 0, 4), 0);
}

#[test]
fn test_visual_width_up_to_no_tabs() {
    assert_eq!(visual_width_up_to("hello", 3, 4), 3);
    assert_eq!(visual_width_up_to("world", 5, 4), 5);
}

#[test]
fn test_visual_width_up_to_with_tab() {
    assert_eq!(visual_width_up_to("a\tbc", 1, 4), 1); // before tab
    assert_eq!(visual_width_up_to("a\tbc", 2, 4), 4); // after tab
    assert_eq!(visual_width_up_to("a\tbc", 3, 4), 5); // after 'b'
}

#[test]
fn test_visual_width_up_to_multiple_tabs() {
    assert_eq!(visual_width_up_to("\t\tx", 0, 4), 0);
    assert_eq!(visual_width_up_to("\t\tx", 1, 4), 4);
    assert_eq!(visual_width_up_to("\t\tx", 2, 4), 8);
    assert_eq!(visual_width_up_to("\t\tx", 3, 4), 9);
}

#[test]
fn test_visual_width_up_to_beyond_length() {
    assert_eq!(visual_width_up_to("hi", 10, 4), 2);
    assert_eq!(visual_width_up_to("\t",  10, 4), 4);
}

// --- line_number_width ---

#[test]
fn test_line_number_width_disabled() {
    let mut settings = Settings::default();
    settings.appearance.line_number_digits = 0;
    assert_eq!(line_number_width(&settings), 0);
}

#[test]
fn test_line_number_width_enabled() {
    let mut settings = Settings::default();
    settings.appearance.line_number_digits = 3;
    assert_eq!(line_number_width(&settings), 4); // 3 + 1 separator

    settings.appearance.line_number_digits = 5;
    assert_eq!(line_number_width(&settings), 6);
}

// --- calculate_wrapped_lines_for_line ---

#[test]
fn test_wrapped_lines_empty_line() {
    let lines = vec![String::new()];
    assert_eq!(calculate_wrapped_lines_for_line(&lines, 0, 80, 4), 1);
}

#[test]
fn test_wrapped_lines_short_line_no_wrap() {
    let lines = vec!["hello".to_string()];
    assert_eq!(calculate_wrapped_lines_for_line(&lines, 0, 80, 4), 1);
}

#[test]
fn test_wrapped_lines_exact_width() {
    // 80 chars, usable width 79 → wraps into 2 segments
    let lines = vec!["x".repeat(80)];
    assert_eq!(calculate_wrapped_lines_for_line(&lines, 0, 80, 4), 2);
}

#[test]
fn test_wrapped_lines_one_over_wraps_to_two() {
    let lines = vec!["x".repeat(81)];
    assert_eq!(calculate_wrapped_lines_for_line(&lines, 0, 80, 4), 2);
}

#[test]
fn test_wrapped_lines_double_width() {
    // 160 chars, usable 79 → 3 segments
    let lines = vec!["x".repeat(160)];
    assert_eq!(calculate_wrapped_lines_for_line(&lines, 0, 80, 4), 3);
}

#[test]
fn test_wrapped_lines_triple_width() {
    let lines = vec!["x".repeat(200)];
    assert_eq!(calculate_wrapped_lines_for_line(&lines, 0, 80, 4), 3);
}

#[test]
fn test_wrapped_lines_with_tabs() {
    // 10 tabs × 4 = 40 visual cols → fits in 80
    let lines = vec!["\t".repeat(10)];
    assert_eq!(calculate_wrapped_lines_for_line(&lines, 0, 80, 4), 1);

    // 21 tabs × 4 = 84 visual cols → wraps
    let lines = vec!["\t".repeat(21)];
    assert_eq!(calculate_wrapped_lines_for_line(&lines, 0, 80, 4), 2);
}

#[test]
fn test_wrapped_lines_mixed_tabs_and_chars() {
    let lines = vec!["hello\tworld".to_string()]; // 13 visual cols
    assert_eq!(calculate_wrapped_lines_for_line(&lines, 0, 80, 4), 1);
}

#[test]
fn test_wrapped_lines_zero_width_returns_one() {
    let lines = vec!["hello".to_string()];
    assert_eq!(calculate_wrapped_lines_for_line(&lines, 0, 0, 4), 1);
}

#[test]
fn test_word_wrapping_with_spaces() {
    let lines = vec!["hello world test".to_string()];
    assert_eq!(calculate_wrapped_lines_for_line(&lines, 0, 80, 4), 1);

    let lines = vec!["hello world".to_string()];
    assert_eq!(calculate_wrapped_lines_for_line(&lines, 0, 10, 4), 2);
}

#[test]
fn test_word_wrapping_preserves_words() {
    let lines = vec!["short words here".to_string()];
    assert!(calculate_wrapped_lines_for_line(&lines, 0, 20, 4) >= 1);
}

#[test]
fn test_wrapped_lines_beyond_line_count() {
    let lines = vec!["line1".to_string()];
    assert_eq!(calculate_wrapped_lines_for_line(&lines, 5, 80, 4), 1);
}

// --- calculate_cursor_visual_line ---

#[test]
fn test_cursor_visual_line_at_top_no_wrap() {
    let settings = Settings::default();
    let state = make_state(&settings);
    let lines = vec!["line1".to_string(), "line2".to_string()];
    assert_eq!(calculate_cursor_visual_line(&lines, &state, 80), 0);
}

#[test]
fn test_cursor_visual_line_second_line_no_wrap() {
    let settings = Settings::default();
    let mut state = make_state(&settings);
    let lines = vec!["line1".to_string(), "line2".to_string()];
    state.cursor_line = 1;
    assert_eq!(calculate_cursor_visual_line(&lines, &state, 80), 1);
}

#[test]
fn test_cursor_visual_line_with_wrapped_previous_line() {
    let settings = Settings::default();
    let mut state = make_state(&settings);
    let lines = vec!["x".repeat(100), "line2".to_string()];
    state.cursor_line = 1;
    assert_eq!(calculate_cursor_visual_line(&lines, &state, 80), 2);
}

#[test]
fn test_cursor_visual_line_within_wrapped_line_first_wrap() {
    let settings = Settings::default();
    let mut state = make_state(&settings);
    let lines = vec!["x".repeat(100)];
    state.cursor_col = 50;
    assert_eq!(calculate_cursor_visual_line(&lines, &state, 80), 0);
}

#[test]
fn test_cursor_visual_line_within_wrapped_line_second_wrap() {
    let settings = Settings::default();
    let mut state = make_state(&settings);
    let lines = vec!["x".repeat(100)];
    state.cursor_col = 85;
    assert_eq!(calculate_cursor_visual_line(&lines, &state, 80), 1);
}

#[test]
fn test_cursor_visual_line_after_scrolling() {
    let settings = Settings::default();
    let mut state = make_state(&settings);
    let lines = vec!["line1".to_string(), "line2".to_string(), "line3".to_string()];
    state.top_line = 1;
    state.cursor_line = 1;
    assert_eq!(calculate_cursor_visual_line(&lines, &state, 80), 1);
}

#[test]
fn test_cursor_visual_line_after_scrolling_with_wrapped_lines() {
    let settings = Settings::default();
    let mut state = make_state(&settings);
    let lines = vec!["x".repeat(150), "y".repeat(150), "line3".to_string()];
    state.top_line = 1;
    state.cursor_line = 1;
    assert_eq!(calculate_cursor_visual_line(&lines, &state, 80), 2);
}

// --- calculate_visual_lines_to_cursor ---

#[test]
fn test_visual_lines_to_cursor_at_top() {
    let settings = Settings::default();
    let state = make_state(&settings);
    let lines = vec!["line1".to_string(), "line2".to_string()];
    assert_eq!(calculate_visual_lines_to_cursor(&lines, &state, 80), 1);
}

#[test]
fn test_visual_lines_to_cursor_second_line() {
    let settings = Settings::default();
    let mut state = make_state(&settings);
    let lines = vec!["line1".to_string(), "line2".to_string()];
    state.cursor_line = 1;
    assert_eq!(calculate_visual_lines_to_cursor(&lines, &state, 80), 2);
}

#[test]
fn test_visual_lines_to_cursor_with_wrapped_lines() {
    let settings = Settings::default();
    let mut state = make_state(&settings);
    let lines = vec!["x".repeat(100), "line2".to_string()];
    state.cursor_line = 1;
    assert_eq!(calculate_visual_lines_to_cursor(&lines, &state, 80), 3);
}

// --- visual_col_to_char_index ---

#[test]
fn test_visual_col_to_char_no_tabs() {
    let line = "hello world";
    assert_eq!(visual_col_to_char_index(line,  0, 4), 0);
    assert_eq!(visual_col_to_char_index(line,  5, 4), 5);
    assert_eq!(visual_col_to_char_index(line, 11, 4), 11);
}

#[test]
fn test_visual_col_to_char_with_tab() {
    let line = "a\tb"; // 'a'→col0, tab→cols1-3, 'b'→col4
    assert_eq!(visual_col_to_char_index(line, 0, 4), 0);
    assert_eq!(visual_col_to_char_index(line, 1, 4), 1);
    assert_eq!(visual_col_to_char_index(line, 4, 4), 2);
}

#[test]
fn test_visual_col_to_char_beyond_end() {
    assert_eq!(visual_col_to_char_index("hello", 100, 4), 5);
}

// --- calculate_text_width ---

#[test]
fn test_calculate_text_width_no_scrollbar() {
    let settings = Settings::default();
    let mut state = make_state(&settings);
    state.term_width = 80;
    let lines = vec!["line1".to_string()];
    // 80 - gutter(4: 3 digits + separator) - scrollbar(1) = 75
    assert_eq!(calculate_text_width(&state, &lines, 20), 75);
}

#[test]
fn test_calculate_text_width_with_scrollbar() {
    let settings = Settings::default();
    let mut state = make_state(&settings);
    state.term_width = 80;
    let lines = (0..30).map(|i| format!("line{}", i)).collect::<Vec<_>>();
    assert_eq!(calculate_text_width(&state, &lines, 20), 75);
}

#[test]
fn test_calculate_text_width_no_line_numbers() {
    let mut settings = Settings::default();
    settings.appearance.line_number_digits = 0;
    let mut state = make_state(&settings);
    state.term_width = 80;
    let lines = vec!["line1".to_string()];
    // 80 - 0 - scrollbar(1) = 79
    assert_eq!(calculate_text_width(&state, &lines, 20), 79);
}


// --- visual_to_logical_position ---

#[test]
fn test_visual_to_logical_simple() {
    let settings = Settings::default();
    let mut state = make_state(&settings);
    state.top_line = 0;
    let lines = vec!["hello".to_string(), "world".to_string()];
    // col 10 - gutter(4) = offset 6, clamped to line length 5
    let result = visual_to_logical_position(&state, &lines, 0, 10, 20);
    assert_eq!(result, Some((0, 5)));
}

#[test]
fn test_visual_to_logical_second_line() {
    let settings = Settings::default();
    let mut state = make_state(&settings);
    state.top_line = 0;
    let lines = vec!["hello".to_string(), "world".to_string()];
    let result = visual_to_logical_position(&state, &lines, 1, 10, 20);
    assert_eq!(result, Some((1, 5)));
}

#[test]
fn test_visual_to_logical_wrapped_line_second_wrap() {
    let settings = Settings::default();
    let mut state = make_state(&settings);
    state.top_line = 0;
    let lines = vec!["x".repeat(100)];
    // Click on the second visual line: still logical line 0.
    let result = visual_to_logical_position(&state, &lines, 1, 10, 20);
    assert!(result.is_some());
    let (line, col) = result.unwrap();
    assert_eq!(line, 0);
    assert!(col >= 77); // into the second wrap segment
}

#[test]
fn test_visual_to_logical_click_on_line_number_returns_none() {
    let settings = Settings::default();
    let state = make_state(&settings);
    let lines = vec!["hello".to_string()];
    assert_eq!(visual_to_logical_position(&state, &lines, 0, 2, 20), None);
}

#[test]
fn test_visual_to_logical_click_on_scrollbar_returns_none() {
    let settings = Settings::default();
    let state = make_state(&settings);
    let lines = (0..30).map(|i| format!("line{}", i)).collect::<Vec<_>>();
    assert_eq!(visual_to_logical_position(&state, &lines, 0, 79, 20), None);
}

#[test]
fn visual_to_logical_below_last_line_is_none() {
    let settings = Settings::default();
    let state = make_state(&settings);
    let lines = vec!["a".to_string(), "b".to_string()];
    assert_eq!(visual_to_logical_position(&state, &lines, 5, 10, 20), None);
}

#[test]
fn visual_to_logical_respects_top_line() {
    let settings = Settings::default();
    let mut state = make_state(&settings);
    state.top_line = 1;
    let lines = vec!["aaa".to_string(), "bbbbbbbb".to_string(), "c".to_string()];
    // gutter 4, so column 6 is character 2 of the first line on screen
    assert_eq!(visual_to_logical_position(&state, &lines, 0, 6, 20), Some((1, 2)));
    assert_eq!(visual_to_logical_position(&state, &lines, 1, 6, 20), Some((2, 1)));
}

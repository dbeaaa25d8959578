use ue::editor_state::FileViewerState;
use ue::navigation::{
    first_non_blank_char, is_blank, paragraph_down, paragraph_up, scroll_without_cursor,
    word_left, word_right,
};
use ue::settings::Settings;
use ue::undo::UndoHistory;

fn create_test_state(settings: &Settings) -> FileViewerState<'_> {
    let mut s = FileViewerState::new(80, UndoHistory::new(), settings);
    s.term_width = 80;
    s
}

fn strings(v: &[&str]) -> Vec<String> {
    v.iter().map(|s| s.to_string()).collect()
}

#[test]
fn word_left_skips_punctuation_then_word() {
    let settings = Settings::default();
    let mut state = create_test_state(&settings);
    let lines = strings(&["foo_bar, baz"]);
    state.cursor_col = 9; // at 'b' of baz
    assert!(word_left(&mut state, &lines));
    assert_eq!(state.cursor_col, 0);
    state.cursor_col = 12;
    assert!(word_left(&mut state, &lines));
    assert_eq!(state.cursor_col, 9);
}

#[test]
fn word_left_at_line_start_goes_to_previous_line_end() {
    let settings = Settings::default();
    let mut state = create_test_state(&settings);
    let lines = strings(&["abc", "de"]);
    state.cursor_line = 1;
    state.cursor_col = 0;
    assert!(word_left(&mut state, &lines));
    assert_eq!((state.cursor_line, state.cursor_col), (0, 3));
    state.cursor_col = 0;
    assert!(!word_left(&mut state, &lines));
}

#[test]
fn word_left_at_top_row_scrolls_up() {
    let settings = Settings::default();
    let mut state = create_test_state(&settings);
    let lines = strings(&["abc", "de", "f"]);
    state.top_line = 2;
    state.cursor_line = 0;
    state.cursor_col = 0;
    assert!(word_left(&mut state, &lines));
    assert_eq!((state.top_line, state.cursor_line, state.cursor_col), (1, 0, 2));
}

#[test]
fn word_right_skips_word_then_stops() {
    let settings = Settings::default();
    let mut state = create_test_state(&settings);
    let lines = strings(&["foo bar", "x"]);
    state.cursor_col = 0;
    assert!(word_right(&mut state, &lines));
    assert_eq!(state.cursor_col, 3);
    assert!(word_right(&mut state, &lines));
    assert_eq!(state.cursor_col, 7);
    assert!(word_right(&mut state, &lines));
    assert_eq!((state.cursor_line, state.cursor_col), (1, 0));
    state.cursor_col = 1;
    assert!(!word_right(&mut state, &lines));
}

#[test]
fn paragraph_up_and_down() {
    let settings = Settings::default();
    let mut state = create_test_state(&settings);
    let lines = strings(&["a", "b", "", "  ", "c", "d", "", "e"]);
    state.cursor_line = 5;
    state.cursor_col = 1;
    assert!(paragraph_up(&mut state, &lines));
    // past "c", "d" upwards, then past the blank lines: line 2 is the top
    // of that run of blanks, so the cursor lands on line 2
    assert_eq!((state.cursor_line, state.cursor_col, state.desired_cursor_col), (2, 0, 0));
    assert!(paragraph_down(&mut state, &lines, 20));
    // line 2 is blank: no non-blank lines to skip, then the blanks: line 4
    assert_eq!(state.cursor_line, 4);
    assert!(paragraph_down(&mut state, &lines, 20));
    assert_eq!(state.cursor_line, 7);
    state.cursor_line = 0;
    assert!(!paragraph_up(&mut state, &lines));
}

#[test]
fn paragraph_down_scrolls_when_target_below_screen() {
    let settings = Settings::default();
    let mut state = create_test_state(&settings);
    let mut v: Vec<String> = Vec::new();
    for _ in 0..10 {
        v.push("x".to_string());
    }
    v.push(String::new());
    v.push("y".to_string());
    state.cursor_line = 0;
    assert!(paragraph_down(&mut state, &v, 5));
    // target line 11 is below the 5 visible rows: view puts it half a
    // screen down
    assert_eq!(state.top_line, 9);
    assert_eq!(state.cursor_line, 2);
}

#[test]
fn blank_lines_and_first_non_blank() {
    assert!(is_blank(""));
    assert!(is_blank(" \t "));
    assert!(!is_blank(" a "));
    assert_eq!(first_non_blank_char("   abc"), 3);
    assert_eq!(first_non_blank_char("abc"), 0);
    assert_eq!(first_non_blank_char("    "), 0);
}

#[test]
fn scroll_without_cursor_keeps_absolute_cursor() {
    let settings = Settings::default();
    let mut state = create_test_state(&settings);
    let lines: Vec<String> = (0..100).map(|i| format!("line{}", i)).collect();
    state.top_line = 10;
    state.cursor_line = 5; // absolute 15
    assert!(scroll_without_cursor(&mut state, &lines, 20, 3));
    assert_eq!(state.top_line, 13);
    assert_eq!(state.cursor_line, 2);
    assert_eq!(state.saved_absolute_cursor, None);
    // scroll far enough that the cursor leaves the screen
    assert!(scroll_without_cursor(&mut state, &lines, 20, 10));
    assert_eq!(state.top_line, 23);
    assert_eq!(state.saved_absolute_cursor, Some(15));
    assert_eq!(state.saved_scroll_state, Some((13, 2)));
    // back: the cursor is on screen again
    assert!(scroll_without_cursor(&mut state, &lines, 20, -20));
    assert_eq!(state.top_line, 3);
    assert_eq!(state.cursor_line, 12);
    assert_eq!(state.saved_absolute_cursor, None);
    assert!(!scroll_without_cursor(&mut state, &lines, 20, 0));
}

#[test]
fn scroll_without_cursor_stops_at_last_line() {
    let settings = Settings::default();
    let mut state = create_test_state(&settings);
    let lines = strings(&["a", "b", "c"]);
    assert!(scroll_without_cursor(&mut state, &lines, 20, 10));
    assert_eq!(state.top_line, 2);
    assert!(!scroll_without_cursor(&mut state, &lines, 20, 1));
}

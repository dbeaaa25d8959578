use ue::document_keys::{
    ensure_cursor_on_visible_line, handle_find_key, jump_to_document_end, jump_to_document_start, number_text,
    open_goto_line, select_all,
};
use ue::editor_state::FileViewerState;
use ue::settings::Settings;
use ue::undo::UndoHistory;

fn strings(v: &[&str]) -> Vec<String> {
    v.iter().map(|s| s.to_string()).collect()
}

#[test]
fn select_all_covers_the_document() {
    let lines = strings(&["abc", "héllo"]);
    let settings = Settings::default();
    let mut state = FileViewerState::new(80, UndoHistory::new(), &settings);
    select_all(&mut state, &lines);
    assert_eq!(state.selection_start, Some((0, 0)));
    assert_eq!(state.selection_end, Some((1, 5)));
    assert!(state.needs_redraw);
}

#[test]
fn select_all_on_no_lines_does_nothing() {
    let lines: Vec<String> = Vec::new();
    let settings = Settings::default();
    let mut state = FileViewerState::new(80, UndoHistory::new(), &settings);
    select_all(&mut state, &lines);
    assert_eq!(state.selection_start, None);
    assert_eq!(state.selection_end, None);
}

#[test]
fn ctrl_end_goes_to_the_last_page_and_ctrl_home_back() {
    let lines = strings(&["a", "b", "c", "d", "e", "last"]);
    let settings = Settings::default();
    let mut state = FileViewerState::new(80, UndoHistory::new(), &settings);
    jump_to_document_end(&mut state, &lines, 3, false);
    assert_eq!((state.top_line, state.cursor_line, state.cursor_col), (3, 2, 4));
    assert_eq!(state.desired_cursor_col, 4);
    jump_to_document_start(&mut state, false);
    assert_eq!((state.top_line, state.cursor_line, state.cursor_col), (0, 0, 0));
}

#[test]
fn shift_ctrl_end_selects_to_the_end() {
    let lines = strings(&["ab", "cd"]);
    let settings = Settings::default();
    let mut state = FileViewerState::new(80, UndoHistory::new(), &settings);
    state.cursor_col = 1;
    jump_to_document_end(&mut state, &lines, 10, true);
    assert_eq!(state.selection_start, Some((0, 1)));
    assert_eq!(state.selection_end, Some((1, 2)));
}

#[test]
fn find_key_opens_the_prompt_scoped_to_the_selection() {
    let lines = strings(&["abc", "def"]);
    let settings = Settings::default();
    let mut state = FileViewerState::new(80, UndoHistory::new(), &settings);
    state.last_search_pattern = None;
    state.selection_start = Some((1, 2));
    state.selection_end = Some((0, 1));
    handle_find_key(&mut state, &lines);
    assert!(state.find_active);
    assert_eq!(state.find_pattern, "");
    assert_eq!(state.find_scope, Some(((0, 1), (1, 2))));
    assert_eq!(state.find_prompt.saved_search_pattern, None);
}

#[test]
fn find_key_with_active_search_toggles_filter_and_moves_to_a_shown_line() {
    let lines = strings(&["zzz", "abc", "zzz"]);
    let settings = Settings::default();
    let mut state = FileViewerState::new(80, UndoHistory::new(), &settings);
    state.last_search_pattern = Some("abc".to_string());
    state.cursor_line = 2;
    handle_find_key(&mut state, &lines);
    assert!(state.filter_active);
    assert!(!state.find_active);
    assert_eq!(state.top_line + state.cursor_line, 1);
    handle_find_key(&mut state, &lines);
    assert!(!state.filter_active);
}

#[test]
fn cursor_stays_when_its_line_is_shown() {
    let lines = strings(&["abc", "zzz"]);
    let settings = Settings::default();
    let mut state = FileViewerState::new(80, UndoHistory::new(), &settings);
    state.last_search_pattern = Some("abc".to_string());
    state.filter_active = true;
    ensure_cursor_on_visible_line(&mut state, &lines);
    assert_eq!(state.cursor_line, 0);
}

#[test]
fn goto_prompt_is_prefilled_with_the_line_number() {
    let settings = Settings::default();
    let mut state = FileViewerState::new(80, UndoHistory::new(), &settings);
    state.top_line = 100;
    state.cursor_line = 22;
    open_goto_line(&mut state);
    assert!(state.goto_line_active);
    assert_eq!(state.goto_line_input, "123");
    assert_eq!(state.goto_line_cursor_pos, 3);
    assert!(!state.goto_line_typing_started);
}

#[test]
fn numbers_are_written_in_decimal() {
    assert_eq!(number_text(0), "0");
    assert_eq!(number_text(7), "7");
    assert_eq!(number_text(10), "10");
    assert_eq!(number_text(90210), "90210");
}

use ue::editor_state::FileViewerState;
use ue::find_input::handle_find_input;
use ue::keys::{KeyCode, KeyEvent, KeyModifiers};
use ue::settings::Settings;
use ue::undo::UndoHistory;

fn strings(v: &[&str]) -> Vec<String> {
    v.iter().map(|s| s.to_string()).collect()
}

fn key(code: KeyCode) -> KeyEvent {
    KeyEvent::new(code, KeyModifiers::none())
}

fn ctrl(c: char) -> KeyEvent {
    KeyEvent::new(KeyCode::Char(c), KeyModifiers { shift: false, control: true, alt: false })
}

#[test]
fn test_enter_does_not_jump_to_match() {
    let lines = strings(&["first line", "test here", "another line"]);
    let settings = Settings::default();
    let mut state = FileViewerState::new(80, UndoHistory::new(), &settings);
    state.cursor_line = 0;
    state.top_line = 0;
    state.cursor_col = 0;
    state.find_active = true;
    state.find_pattern = "test".to_string();

    let (exited, _) = handle_find_input(&mut state, &lines, key(KeyCode::Enter), 10);

    assert!(exited);
    assert!(!state.find_active);
    assert_eq!(state.cursor_line, 0);
    assert_eq!(state.cursor_col, 0);
    assert_eq!(state.last_search_pattern, Some("test".to_string()));
    assert_eq!(state.search_hit_count, 1);
    assert_eq!(state.search_current_hit, 0);
}

#[test]
fn test_hit_count_always_updated() {
    let lines = strings(&["first line", "second line"]);
    let settings = Settings::default();
    let mut state = FileViewerState::new(80, UndoHistory::new(), &settings);
    state.cursor_line = 0;
    state.top_line = 0;
    state.cursor_col = 0;
    state.find_active = true;
    state.find_pattern = "nomatch".to_string();

    handle_find_input(&mut state, &lines, key(KeyCode::Enter), 10);

    assert_eq!(state.search_hit_count, 0);
    assert_eq!(state.search_current_hit, 0);
    assert_eq!(state.last_search_pattern, Some("nomatch".to_string()));
}

#[test]
fn enter_puts_the_pattern_at_the_front_of_the_history() {
    let lines = strings(&["alpha", "beta"]);
    let settings = Settings::default();
    let mut state = FileViewerState::new(80, UndoHistory::new(), &settings);
    state.find_active = true;
    state.find_history = strings(&["beta", "alpha"]);
    state.find_pattern = "alpha".to_string();
    handle_find_input(&mut state, &lines, key(KeyCode::Enter), 10);
    assert_eq!(state.find_history, strings(&["alpha", "beta"]));
    assert_eq!(state.find_history_index, None);
}

#[test]
fn esc_restores_the_search_from_before_the_prompt() {
    let lines = strings(&["abc"]);
    let settings = Settings::default();
    let mut state = FileViewerState::new(80, UndoHistory::new(), &settings);
    state.find_active = true;
    state.find_prompt.saved_search_pattern = Some("old".to_string());
    state.find_pattern = "new".to_string();
    state.last_search_pattern = Some("new".to_string());

    let (exited, _) = handle_find_input(&mut state, &lines, key(KeyCode::Esc), 10);

    assert!(exited);
    assert!(!state.find_active);
    assert_eq!(state.find_pattern, "");
    assert_eq!(state.last_search_pattern, Some("old".to_string()));
    assert_eq!(state.find_prompt.saved_search_pattern, None);
}

#[test]
fn enter_on_empty_pattern_drops_the_search() {
    let lines = strings(&["abc"]);
    let settings = Settings::default();
    let mut state = FileViewerState::new(80, UndoHistory::new(), &settings);
    state.find_active = true;
    state.last_search_pattern = Some("abc".to_string());
    state.find_scope = Some(((0, 0), (0, 2)));

    let (exited, _) = handle_find_input(&mut state, &lines, key(KeyCode::Enter), 10);

    assert!(exited);
    assert!(!state.find_active);
    assert_eq!(state.last_search_pattern, None);
    assert_eq!(state.find_scope, None);
}

#[test]
fn enter_on_invalid_regex_flags_an_error_and_stays_open() {
    let lines = strings(&["abc"]);
    let settings = Settings::default();
    let mut state = FileViewerState::new(80, UndoHistory::new(), &settings);
    state.find_active = true;
    state.find_regex_mode = true;
    state.find_pattern = "(".to_string();

    let (exited, _) = handle_find_input(&mut state, &lines, key(KeyCode::Enter), 10);

    assert!(!exited);
    assert!(state.find_active);
    assert!(state.find_prompt.error);
    assert_eq!(state.last_search_pattern, None);
}

#[test]
fn typing_inserts_at_the_prompt_cursor_and_highlights() {
    let lines = strings(&["xaby", "ab"]);
    let settings = Settings::default();
    let mut state = FileViewerState::new(80, UndoHistory::new(), &settings);
    state.find_active = true;
    state.find_pattern = "b".to_string();
    state.find_prompt.cursor_pos = 0;

    let (exited, done) = handle_find_input(&mut state, &lines, key(KeyCode::Char('a')), 10);

    assert!(!exited);
    assert!(done);
    assert_eq!(state.find_pattern, "ab");
    assert_eq!(state.find_prompt.cursor_pos, 1);
    assert_eq!(state.last_search_pattern, Some("ab".to_string()));
    assert_eq!(state.search_hit_count, 2);
}

#[test]
fn backspace_deletes_before_the_prompt_cursor() {
    let lines = strings(&["abc"]);
    let settings = Settings::default();
    let mut state = FileViewerState::new(80, UndoHistory::new(), &settings);
    state.find_active = true;
    state.find_pattern = "abc".to_string();
    state.find_prompt.cursor_pos = 2;

    handle_find_input(&mut state, &lines, key(KeyCode::Backspace), 10);

    assert_eq!(state.find_pattern, "ac");
    assert_eq!(state.find_prompt.cursor_pos, 1);
}

#[test]
fn backspace_to_empty_pattern_clears_highlights() {
    let lines = strings(&["abc"]);
    let settings = Settings::default();
    let mut state = FileViewerState::new(80, UndoHistory::new(), &settings);
    state.find_active = true;
    state.find_pattern = "a".to_string();
    state.find_prompt.cursor_pos = 1;
    state.last_search_pattern = Some("a".to_string());
    state.search_hit_count = 1;

    handle_find_input(&mut state, &lines, key(KeyCode::Backspace), 10);

    assert_eq!(state.find_pattern, "");
    assert_eq!(state.last_search_pattern, None);
    assert_eq!(state.search_hit_count, 0);
}

#[test]
fn up_and_down_step_through_the_history() {
    let lines = strings(&["one", "two"]);
    let settings = Settings::default();
    let mut state = FileViewerState::new(80, UndoHistory::new(), &settings);
    state.find_active = true;
    state.find_history = strings(&["two", "one"]);

    handle_find_input(&mut state, &lines, key(KeyCode::Up), 10);
    assert_eq!(state.find_pattern, "two");
    assert_eq!(state.find_history_index, Some(0));
    assert_eq!(state.find_prompt.cursor_pos, 3);

    handle_find_input(&mut state, &lines, key(KeyCode::Up), 10);
    assert_eq!(state.find_pattern, "one");
    assert_eq!(state.find_history_index, Some(1));

    handle_find_input(&mut state, &lines, key(KeyCode::Up), 10);
    assert_eq!(state.find_pattern, "one");
    assert_eq!(state.find_history_index, Some(1));

    handle_find_input(&mut state, &lines, key(KeyCode::Down), 10);
    assert_eq!(state.find_pattern, "two");
    assert_eq!(state.find_history_index, Some(0));

    handle_find_input(&mut state, &lines, key(KeyCode::Down), 10);
    assert_eq!(state.find_pattern, "");
    assert_eq!(state.find_history_index, None);
}

#[test]
fn ctrl_a_selects_the_whole_pattern() {
    let lines = strings(&["abc"]);
    let settings = Settings::default();
    let mut state = FileViewerState::new(80, UndoHistory::new(), &settings);
    state.find_active = true;
    state.find_pattern = "abc".to_string();
    state.find_prompt.cursor_pos = 1;

    let (exited, _) = handle_find_input(&mut state, &lines, ctrl('a'), 10);

    assert!(!exited);
    assert_eq!(state.find_prompt.selection, Some((0, 3)));
    assert_eq!(state.find_prompt.cursor_pos, 3);
    assert_eq!(state.find_pattern, "abc");
}

#[test]
fn left_home_and_end_move_the_prompt_cursor() {
    let lines = strings(&["abc"]);
    let settings = Settings::default();
    let mut state = FileViewerState::new(80, UndoHistory::new(), &settings);
    state.find_active = true;
    state.find_pattern = "abc".to_string();
    state.find_prompt.cursor_pos = 2;

    handle_find_input(&mut state, &lines, key(KeyCode::Left), 10);
    assert_eq!(state.find_prompt.cursor_pos, 1);
    handle_find_input(&mut state, &lines, key(KeyCode::End), 10);
    assert_eq!(state.find_prompt.cursor_pos, 3);
    handle_find_input(&mut state, &lines, key(KeyCode::Right), 10);
    assert_eq!(state.find_prompt.cursor_pos, 3);
    handle_find_input(&mut state, &lines, key(KeyCode::Home), 10);
    assert_eq!(state.find_prompt.cursor_pos, 0);
}

#[test]
fn ctrl_f_toggles_filter_and_moves_to_a_shown_line() {
    let lines = strings(&["zzz", "abc", "zzz", "abc"]);
    let settings = Settings::default();
    let mut state = FileViewerState::new(80, UndoHistory::new(), &settings);
    state.find_active = true;
    state.find_pattern = "abc".to_string();
    state.cursor_line = 2;

    let (exited, _) = handle_find_input(&mut state, &lines, ctrl('f'), 10);

    assert!(exited);
    assert!(state.filter_active);
    assert!(!state.find_active);
    assert_eq!(state.last_search_pattern, Some("abc".to_string()));
    assert_eq!(state.top_line + state.cursor_line, 3);
}

#[test]
fn keys_work_while_the_cursor_is_parked_off_screen() {
    let lines = strings(&["zzz", "abc", "zzz", "zzz"]);
    let settings = Settings::default();
    let mut state = FileViewerState::new(80, UndoHistory::new(), &settings);
    state.saved_absolute_cursor = Some(3);
    state.find_active = true;
    state.find_pattern = "abc".to_string();

    let (exited, _) = handle_find_input(&mut state, &lines, ctrl('f'), 10);
    assert!(exited);
    assert!(state.filter_active);
    assert_eq!(state.cursor_line, 1);

    state.find_active = true;
    let (exited, _) = handle_find_input(&mut state, &lines, key(KeyCode::Esc), 10);
    assert!(exited);
    assert!(!state.find_active);
}

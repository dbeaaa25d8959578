use ue::editor_state::FileViewerState;
use ue::find::{
    add_to_history, build_joined_text, byte_offset_to_position, expand_newline_escapes,
    pattern_is_multiline, wildcard_to_regex,
};
use ue::settings::Settings;
use ue::undo::UndoHistory;

#[test]
fn find_history_deduplication() {
    let settings = Settings::default();
    let undo_history = UndoHistory::new();
    let mut state = FileViewerState::new(80, undo_history, &settings);

    add_to_history(&mut state, "duplicate".to_string());
    add_to_history(&mut state, "other".to_string());
    add_to_history(&mut state, "duplicate".to_string());

    assert_eq!(state.find_history.len(), 2);
    assert_eq!(state.find_history[0], "duplicate");
    assert_eq!(state.find_history[1], "other");
}

#[test]
fn find_history_max_limit() {
    let settings = Settings::default();
    let undo_history = UndoHistory::new();
    let mut state = FileViewerState::new(80, undo_history, &settings);

    for i in 0..150 {
        add_to_history(&mut state, format!("search{}", i));
    }

    assert_eq!(state.find_history.len(), 100);
    assert_eq!(state.find_history[0], "search149");
    assert_eq!(state.find_history[99], "search50");
}

#[test]
fn cursor_movement_clears_wrap_warning() {
    let _lines = vec!["hello".to_string(), "world".to_string()];

    let settings = Settings::default();
    let undo_history = UndoHistory::new();
    let mut state = FileViewerState::new(80, undo_history, &settings);

    state.wrap_warning_pending = Some("next".to_string());
    state.last_search_pattern = Some("test".to_string());

    assert!(state.wrap_warning_pending.is_some());
}

#[test]
fn find_scope_is_set_when_activating_with_selection() {
    let settings = Settings::default();
    let undo_history = UndoHistory::new();
    let mut state = FileViewerState::new(80, undo_history, &settings);

    state.selection_start = Some((1, 5));
    state.selection_end = Some((3, 10));

    if let (Some(start), Some(end)) = (state.selection_start, state.selection_end) {
        let normalized = if start.0 < end.0 || (start.0 == end.0 && start.1 <= end.1) {
            (start, end)
        } else {
            (end, start)
        };
        state.find_scope = Some(normalized);
    }

    assert_eq!(state.find_scope, Some(((1, 5), (3, 10))));
}

#[test]
fn pattern_is_multiline_detects_backslash_n() {
    assert!(pattern_is_multiline("foo\\nbar"));
    assert!(pattern_is_multiline("^\\n"));
    assert!(!pattern_is_multiline("foobar"));
    assert!(!pattern_is_multiline(r"\d+"));
}

#[test]
fn expand_newline_escapes_replaces_backslash_n() {
    let result = expand_newline_escapes("foo\\nbar");
    assert_eq!(result, "foo\nbar");
    let result = expand_newline_escapes("no newline here");
    assert_eq!(result, "no newline here");
}

#[test]
fn build_joined_text_basic() {
    let lines = vec!["hello".to_string(), "world".to_string(), "foo".to_string()];
    let (joined, starts) = build_joined_text(&lines, 0, 2);
    assert_eq!(joined, "hello\nworld\nfoo");
    assert_eq!(starts, vec![0, 6, 12]);
}

#[test]
fn byte_offset_to_position_basic() {
    let lines = vec!["hello".to_string(), "world".to_string(), "foo".to_string()];
    let (_, starts) = build_joined_text(&lines, 0, 2);
    assert_eq!(byte_offset_to_position(0, &starts, &lines, 0), (0, 0));
    assert_eq!(byte_offset_to_position(6, &starts, &lines, 0), (1, 0));
    assert_eq!(byte_offset_to_position(8, &starts, &lines, 0), (1, 2));
    assert_eq!(byte_offset_to_position(12, &starts, &lines, 0), (2, 0));
}

#[test]
fn wildcard_text_for_star_and_dot() {
    assert_eq!(wildcard_to_regex("*.txt"), ".*\\.txt");
}

#[test]
fn wildcard_text_for_question_mark() {
    assert_eq!(wildcard_to_regex("file?.rs"), "file.\\.rs");
}

#[test]
fn wildcard_text_escapes_metacharacters() {
    assert_eq!(wildcard_to_regex("a+b(c)"), "a\\+b\\(c\\)");
}

#[test]
fn expand_newline_escapes_handles_consecutive_escapes() {
    assert_eq!(expand_newline_escapes("a\\n\\nb"), "a\n\nb");
}

#[test]
fn build_joined_text_clamps_max_line() {
    let lines = vec!["ab".to_string(), "cd".to_string()];
    let (joined, starts) = build_joined_text(&lines, 1, 10);
    assert_eq!(joined, "cd");
    assert_eq!(starts, vec![0]);
}

#[test]
fn byte_offset_to_position_counts_characters_not_bytes() {
    let lines = vec!["héllo".to_string(), "x".to_string()];
    let (_, starts) = build_joined_text(&lines, 0, 1);
    assert_eq!(starts, vec![0, 7]);
    assert_eq!(byte_offset_to_position(3, &starts, &lines, 0), (0, 2));
    assert_eq!(byte_offset_to_position(7, &starts, &lines, 0), (1, 0));
}

#[test]
fn history_keeps_single_entry_for_repeats() {
    let settings = Settings::default();
    let mut state = FileViewerState::new(80, UndoHistory::new(), &settings);
    add_to_history(&mut state, "x".to_string());
    add_to_history(&mut state, "x".to_string());
    assert_eq!(state.find_history, vec!["x".to_string()]);
}

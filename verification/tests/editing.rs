use ue::editing::{
    apply_redo, apply_undo, delete_backward, delete_forward, delete_word_backward,
    delete_word_forward, insert_char, insert_tab, split_line,
};
use ue::editor_state::FileViewerState;
use ue::settings::Settings;
use ue::undo::{Edit, UndoHistory};

fn create_test_state(settings: &Settings) -> FileViewerState<'_> {
    FileViewerState::new(80, UndoHistory::new(), settings)
}

#[test]
fn insert_char_basic() {
    let settings = Settings::default();
    let mut state = create_test_state(&settings);
    let mut lines = vec!["hello".to_string()];
    state.cursor_col = 5;

    assert!(insert_char(&mut state, &mut lines, '!'));
    assert_eq!(lines[0], "hello!");
    assert_eq!(state.cursor_col, 6);
    assert_eq!(state.undo_history.edits.len(), 1);
}

#[test]
fn insert_char_middle() {
    let settings = Settings::default();
    let mut state = create_test_state(&settings);
    let mut lines = vec!["hello".to_string()];
    state.cursor_col = 2;

    assert!(insert_char(&mut state, &mut lines, 'X'));
    assert_eq!(lines[0], "heXllo");
    assert_eq!(state.cursor_col, 3);
}

#[test]
fn delete_backward_char() {
    let settings = Settings::default();
    let mut state = create_test_state(&settings);
    let mut lines = vec!["hello".to_string()];
    state.cursor_col = 5;

    assert!(delete_backward(&mut state, &mut lines));
    assert_eq!(lines[0], "hell");
    assert_eq!(state.cursor_col, 4);
}

#[test]
fn delete_backward_merge_lines() {
    let settings = Settings::default();
    let mut state = create_test_state(&settings);
    let mut lines = vec!["hello".to_string(), "world".to_string()];
    state.cursor_line = 1;
    state.cursor_col = 0;

    assert!(delete_backward(&mut state, &mut lines));
    assert_eq!(lines.len(), 1);
    assert_eq!(lines[0], "helloworld");
    assert_eq!(state.cursor_col, 5);
}

#[test]
fn delete_forward_char() {
    let settings = Settings::default();
    let mut state = create_test_state(&settings);
    let mut lines = vec!["hello".to_string()];
    state.cursor_col = 0;

    assert!(delete_forward(&mut state, &mut lines));
    assert_eq!(lines[0], "ello");
    assert_eq!(state.cursor_col, 0);
}

#[test]
fn delete_forward_merge_lines() {
    let settings = Settings::default();
    let mut state = create_test_state(&settings);
    let mut lines = vec!["hello".to_string(), "world".to_string()];
    state.cursor_col = 5;

    assert!(delete_forward(&mut state, &mut lines));
    assert_eq!(lines.len(), 1);
    assert_eq!(lines[0], "helloworld");
    assert_eq!(state.cursor_col, 5);
}

#[test]
fn split_line_basic() {
    let settings = Settings::default();
    let mut state = create_test_state(&settings);
    let mut lines = vec!["helloworld".to_string()];
    state.cursor_col = 5;

    assert!(split_line(&mut state, &mut lines, 10));
    assert_eq!(lines.len(), 2);
    assert_eq!(lines[0], "hello");
    assert_eq!(lines[1], "world");
    assert_eq!(state.cursor_line, 1);
    assert_eq!(state.cursor_col, 0);
}

#[test]
fn insert_tab_adds_spaces() {
    let settings = Settings::default();
    let mut state = create_test_state(&settings);
    let mut lines = vec!["hello".to_string()];
    state.cursor_col = 0;

    assert!(insert_tab(&mut state, &mut lines));
    assert_eq!(lines[0], "    hello");
    assert_eq!(state.cursor_col, 4);
}

#[test]
fn undo_insert_char() {
    let settings = Settings::default();
    let mut state = create_test_state(&settings);
    let mut lines = vec!["hello".to_string()];
    state.cursor_col = 5;

    insert_char(&mut state, &mut lines, '!');
    assert_eq!(lines[0], "hello!");

    assert!(apply_undo(&mut state, &mut lines, 10));
    assert_eq!(lines[0], "hello");
    assert_eq!(state.cursor_col, 5);
}

#[test]
fn undo_delete_backward() {
    let settings = Settings::default();
    let mut state = create_test_state(&settings);
    let mut lines = vec!["hello".to_string()];
    state.cursor_col = 5;

    delete_backward(&mut state, &mut lines);
    assert_eq!(lines[0], "hell");

    assert!(apply_undo(&mut state, &mut lines, 10));
    assert_eq!(lines[0], "hello");
    assert_eq!(state.cursor_col, 5);
}

#[test]
fn undo_split_line() {
    let settings = Settings::default();
    let mut state = create_test_state(&settings);
    let mut lines = vec!["helloworld".to_string()];
    state.cursor_col = 5;

    split_line(&mut state, &mut lines, 10);
    assert_eq!(lines.len(), 2);

    assert!(apply_undo(&mut state, &mut lines, 10));
    assert_eq!(lines.len(), 1);
    assert_eq!(lines[0], "helloworld");
    assert_eq!(state.cursor_col, 5);
}

#[test]
fn redo_insert_char() {
    let settings = Settings::default();
    let mut state = create_test_state(&settings);
    let mut lines = vec!["hello".to_string()];
    state.cursor_col = 5;

    insert_char(&mut state, &mut lines, '!');
    apply_undo(&mut state, &mut lines, 10);

    assert!(apply_redo(&mut state, &mut lines, 10));
    assert_eq!(lines[0], "hello!");
    assert_eq!(state.cursor_col, 6);
}

#[test]
fn delete_word_backward_single_undo() {
    let settings = Settings::default();
    let mut state = create_test_state(&settings);
    let mut lines = vec!["hello world test".to_string()];
    state.cursor_col = 16;

    assert!(delete_word_backward(&mut state, &mut lines));
    assert_eq!(lines[0], "hello world ");
    assert_eq!(state.cursor_col, 12);

    assert!(apply_undo(&mut state, &mut lines, 10));
    assert_eq!(lines[0], "hello world test");
    assert_eq!(state.cursor_col, 16);

    assert_eq!(state.undo_history.edits.len(), 1);
    if let Edit::DeleteWord { text, forward, .. } = &state.undo_history.edits[0] {
        assert_eq!(text, "test");
        assert_eq!(*forward, false);
    } else {
        panic!("Expected DeleteWord edit");
    }
}

#[test]
fn delete_word_forward_single_undo() {
    let settings = Settings::default();
    let mut state = create_test_state(&settings);
    let mut lines = vec!["hello world test".to_string()];
    state.cursor_col = 6;

    assert!(delete_word_forward(&mut state, &mut lines));
    assert_eq!(lines[0], "hello  test");
    assert_eq!(state.cursor_col, 6);

    assert!(apply_undo(&mut state, &mut lines, 10));
    assert_eq!(lines[0], "hello world test");
    assert_eq!(state.cursor_col, 6);

    assert_eq!(state.undo_history.edits.len(), 1);
    if let Edit::DeleteWord { text, forward, .. } = &state.undo_history.edits[0] {
        assert_eq!(text, "world");
        assert_eq!(*forward, true);
    } else {
        panic!("Expected DeleteWord edit");
    }
}

#[test]
fn undo_then_redo_restores_each_document() {
    let settings = Settings::default();
    let mut state = create_test_state(&settings);
    let mut lines = vec!["ab".to_string(), "cd".to_string()];
    state.cursor_col = 2;
    assert!(delete_forward(&mut state, &mut lines));
    assert_eq!(lines, vec!["abcd".to_string()]);
    assert!(apply_undo(&mut state, &mut lines, 10));
    assert_eq!(lines, vec!["ab".to_string(), "cd".to_string()]);
    assert!(apply_redo(&mut state, &mut lines, 10));
    assert_eq!(lines, vec!["abcd".to_string()]);
    assert!(!apply_redo(&mut state, &mut lines, 10));
}

#[test]
fn nothing_to_undo_changes_nothing() {
    let settings = Settings::default();
    let mut state = create_test_state(&settings);
    let mut lines = vec!["x".to_string()];
    assert!(!apply_undo(&mut state, &mut lines, 10));
    assert_eq!(lines, vec!["x".to_string()]);
}

#[test]
fn new_edit_after_undo_drops_redo() {
    let settings = Settings::default();
    let mut state = create_test_state(&settings);
    let mut lines = vec!["".to_string()];
    insert_char(&mut state, &mut lines, 'a');
    apply_undo(&mut state, &mut lines, 10);
    insert_char(&mut state, &mut lines, 'b');
    assert_eq!(lines[0], "b");
    assert_eq!(state.undo_history.edits.len(), 1);
    assert!(!apply_redo(&mut state, &mut lines, 10));
}

#[test]
fn edits_past_the_line_end_are_refused() {
    let settings = Settings::default();
    let mut state = create_test_state(&settings);
    let mut lines = vec!["ab".to_string()];
    state.cursor_col = 5;
    assert!(!insert_char(&mut state, &mut lines, 'x'));
    assert!(!insert_tab(&mut state, &mut lines));
    state.cursor_line = 3;
    assert!(!split_line(&mut state, &mut lines, 10));
    assert!(!delete_backward(&mut state, &mut lines));
    assert_eq!(lines, vec!["ab".to_string()]);
}

#[test]
fn delete_word_backward_skips_punctuation_then_word() {
    let settings = Settings::default();
    let mut state = create_test_state(&settings);
    let mut lines = vec!["foo_bar, baz".to_string()];
    state.cursor_col = 9;
    assert!(delete_word_backward(&mut state, &mut lines));
    assert_eq!(lines[0], "baz");
    assert_eq!(state.cursor_col, 0);
}

use ue::editing::apply_undo;
use ue::editor_state::FileViewerState;
use ue::selection::{
    extract_block_selection, extract_selection, handle_copy, handle_cut, handle_paste,
    normalize_selection, remove_selection, split_paste,
};
use ue::settings::Settings;
use ue::undo::{Edit, UndoHistory};

fn create_test_state(settings: &Settings) -> FileViewerState<'_> {
    FileViewerState::new(80, UndoHistory::new(), settings)
}

fn strings(v: &[&str]) -> Vec<String> {
    v.iter().map(|s| s.to_string()).collect()
}

#[test]
fn paste_replaces_selection() {
    let settings = Settings::default();
    let mut state = create_test_state(&settings);
    let mut lines = vec!["hello world".to_string()];
    state.cursor_line = 0;
    state.cursor_col = 6; // after "hello "
    state.selection_start = Some((0, 6));
    state.selection_end = Some((0, 11)); // select "world"

    assert!(handle_paste(&mut state, &mut lines, "UE"));
    assert_eq!(lines[0], "hello UE", "paste should replace selection");
}

#[test]
fn paste_multiline_is_single_undo_action() {
    let settings = Settings::default();
    let mut state = create_test_state(&settings);
    let mut lines = vec!["abc".to_string()];
    state.cursor_line = 0;
    state.cursor_col = 1; // a|bc
    state.top_line = 0;

    assert!(handle_paste(&mut state, &mut lines, "X\nY\nZ"));
    // Expect: aX, Y, Zbc
    assert_eq!(lines.len(), 3);
    assert_eq!(lines[0], "aX");
    assert_eq!(lines[1], "Y");
    assert_eq!(lines[2], "Zbc");

    // One composite edit
    assert_eq!(state.undo_history.edits.len(), 1);
    if let Edit::CompositeEdit { edits, .. } = &state.undo_history.edits[0] {
        // SplitLine + 2x InsertLine
        assert!(edits.len() >= 3, "should have at least 3 edits, got {}", edits.len());
    } else {
        panic!("should be composite edit");
    }
}

#[test]
fn paste_complete_lines_with_trailing_newline() {
    let settings = Settings::default();
    let mut state = create_test_state(&settings);
    let mut lines = vec!["before".to_string(), "after".to_string()];
    state.cursor_line = 0;
    state.cursor_col = 6; // at end of first line
    state.top_line = 0;

    assert!(handle_paste(&mut state, &mut lines, "copied\n"));
    // The trailing newline creates an empty line
    assert_eq!(lines.len(), 3, "should have created a new line");
    assert_eq!(lines[0], "beforecopied");
    assert_eq!(lines[1], "");
    assert_eq!(lines[2], "after");
}

#[test]
fn paste_multiple_complete_lines_with_trailing_newline() {
    let settings = Settings::default();
    let mut state = create_test_state(&settings);
    let mut lines = vec!["before".to_string(), "after".to_string()];
    state.cursor_line = 0;
    state.cursor_col = 6; // at end of first line
    state.top_line = 0;

    assert!(handle_paste(&mut state, &mut lines, "line1\nline2\n"));
    assert_eq!(lines.len(), 4, "should have created new lines");
    assert_eq!(lines[0], "beforeline1");
    assert_eq!(lines[1], "line2");
    assert_eq!(lines[2], "");
    assert_eq!(lines[3], "after");
}

#[test]
fn paste_empty_text_does_nothing() {
    let settings = Settings::default();
    let mut state = create_test_state(&settings);
    let mut lines = vec!["abc".to_string()];
    assert!(!handle_paste(&mut state, &mut lines, ""));
    assert_eq!(lines, vec!["abc".to_string()]);
    assert_eq!(state.undo_history.edits.len(), 0);
}

#[test]
fn paste_single_line_moves_cursor_past_text() {
    let settings = Settings::default();
    let mut state = create_test_state(&settings);
    let mut lines = vec!["abc".to_string()];
    state.cursor_col = 1;
    assert!(handle_paste(&mut state, &mut lines, "XY"));
    assert_eq!(lines[0], "aXYbc");
    assert_eq!(state.cursor_col, 3);
    assert!(state.modified);
    if let Edit::CompositeEdit { edits, undo_cursor } = &state.undo_history.edits[0] {
        assert_eq!(edits.len(), 2);
        assert!(matches!(edits[0], Edit::InsertChar { line: 0, col: 1, ch: 'X' }));
        assert!(matches!(edits[1], Edit::InsertChar { line: 0, col: 2, ch: 'Y' }));
        assert_eq!(undo_cursor.as_ref().map(|c| (c.0, c.1)), Some((0, 3)));
    } else {
        panic!("should be composite edit");
    }
}

#[test]
fn paste_multiline_cursor_on_last_pasted_line() {
    let settings = Settings::default();
    let mut state = create_test_state(&settings);
    let mut lines = vec!["abc".to_string(), "tail".to_string()];
    state.cursor_col = 1;
    assert!(handle_paste(&mut state, &mut lines, "one\r\ntwo"));
    assert_eq!(lines, strings(&["aone", "twobc", "tail"]));
    assert_eq!(state.cursor_line, 1);
    assert_eq!(state.cursor_col, 3);
}

#[test]
fn paste_undo_restores_document() {
    let settings = Settings::default();
    let mut state = create_test_state(&settings);
    let mut lines = vec!["hello world".to_string()];
    state.selection_start = Some((0, 0));
    state.selection_end = Some((0, 5));
    assert!(handle_paste(&mut state, &mut lines, "bye\nnow"));
    assert_eq!(lines, strings(&["bye", "now world"]));
    assert!(apply_undo(&mut state, &mut lines, 20));
    assert_eq!(lines, strings(&["hello world"]));
}

#[test]
fn split_paste_strips_carriage_returns_before_line_breaks() {
    let pieces = split_paste("a\r\nb\rc\n");
    assert_eq!(pieces, strings(&["a", "b\rc", ""]));
    assert_eq!(split_paste("x"), strings(&["x"]));
}

#[test]
fn normalize_selection_orders_ends() {
    assert_eq!(normalize_selection((2, 1), (0, 5)), ((0, 5), (2, 1)));
    assert_eq!(normalize_selection((1, 3), (1, 2)), ((1, 2), (1, 3)));
    assert_eq!(normalize_selection((1, 2), (1, 3)), ((1, 2), (1, 3)));
}

#[test]
fn extract_single_and_multi_line_selection() {
    let lines = strings(&["hello", "big", "world"]);
    assert_eq!(extract_selection(&lines, (0, 1), (0, 4)), "ell");
    assert_eq!(extract_selection(&lines, (0, 3), (0, 99)), "lo");
    assert_eq!(extract_selection(&lines, (2, 2), (0, 3)), "lo\nbig\nwo");
}

#[test]
fn extract_block_selection_takes_columns() {
    let lines = strings(&["abcdef", "ab", "uvwxyz"]);
    assert_eq!(extract_block_selection(&lines, 0, 1, 2, 4), "bcd\nb\nvwx");
}

#[test]
fn remove_selection_single_line() {
    let settings = Settings::default();
    let mut state = create_test_state(&settings);
    let mut lines = strings(&["hello world"]);
    state.selection_start = Some((0, 5));
    state.selection_end = Some((0, 11));
    assert!(remove_selection(&mut state, &mut lines));
    assert_eq!(lines, strings(&["hello"]));
    assert_eq!(state.cursor_col, 5);
    assert!(state.selection_start.is_none());
    assert!(state.modified);
    if let Edit::CompositeEdit { edits, .. } = &state.undo_history.edits[0] {
        assert_eq!(edits.len(), 6);
        assert!(matches!(edits[0], Edit::DeleteChar { line: 0, col: 10, ch: 'd' }));
        assert!(matches!(edits[5], Edit::DeleteChar { line: 0, col: 5, ch: ' ' }));
    } else {
        panic!("should be composite edit");
    }
}

#[test]
fn remove_selection_multi_line_joins_ends() {
    let settings = Settings::default();
    let mut state = create_test_state(&settings);
    let mut lines = strings(&["first", "middle", "last line"]);
    state.selection_start = Some((2, 4));
    state.selection_end = Some((0, 2));
    assert!(remove_selection(&mut state, &mut lines));
    assert_eq!(lines, strings(&["fi line"]));
    assert_eq!((state.cursor_line, state.cursor_col), (0, 2));
    if let Edit::CompositeEdit { edits, .. } = &state.undo_history.edits[0] {
        // 3 tail deletions, one deleted line, 4 head deletions, the join
        assert_eq!(edits.len(), 9);
        assert!(matches!(edits[3], Edit::DeleteLine { line: 1, .. }));
        assert!(matches!(edits[8], Edit::MergeLine { line: 0, .. }));
    } else {
        panic!("should be composite edit");
    }
}

#[test]
fn remove_block_selection_removes_columns() {
    let settings = Settings::default();
    let mut state = create_test_state(&settings);
    let mut lines = strings(&["abcdef", "ab", "uvwxyz"]);
    state.block_selection = true;
    state.selection_start = Some((0, 1));
    state.selection_end = Some((2, 4));
    assert!(remove_selection(&mut state, &mut lines));
    assert_eq!(lines, strings(&["aef", "a", "uyz"]));
    assert!(!state.block_selection);
}

#[test]
fn remove_selection_empty_or_outside_only_clears() {
    let settings = Settings::default();
    let mut state = create_test_state(&settings);
    let mut lines = strings(&["abc"]);
    state.selection_start = Some((0, 1));
    state.selection_end = Some((0, 1));
    assert!(!remove_selection(&mut state, &mut lines));
    assert!(state.selection_start.is_none());
    state.selection_start = Some((0, 1));
    state.selection_end = Some((4, 0));
    assert!(!remove_selection(&mut state, &mut lines));
    assert_eq!(lines, strings(&["abc"]));
    assert_eq!(state.undo_history.edits.len(), 0);
    assert!(!remove_selection(&mut state, &mut lines));
}

#[test]
fn remove_selection_then_undo_restores_text() {
    let settings = Settings::default();
    let mut state = create_test_state(&settings);
    let mut lines = strings(&["one", "two", "three"]);
    state.selection_start = Some((0, 1));
    state.selection_end = Some((1, 2));
    assert!(remove_selection(&mut state, &mut lines));
    assert_eq!(lines, strings(&["oo", "three"]));
    assert!(apply_undo(&mut state, &mut lines, 20));
    assert_eq!(lines, strings(&["one", "two", "three"]));
}

#[test]
fn copy_returns_selected_text() {
    let settings = Settings::default();
    let mut state = create_test_state(&settings);
    let lines = strings(&["hello", "world"]);
    assert_eq!(handle_copy(&state, &lines), None);
    state.selection_start = Some((0, 3));
    state.selection_end = Some((1, 2));
    assert_eq!(handle_copy(&state, &lines), Some("lo\nwo".to_string()));
    state.block_selection = true;
    // start column past end column: no columns, just the line break
    assert_eq!(handle_copy(&state, &lines), Some("\n".to_string()));
    state.selection_start = Some((0, 1));
    state.selection_end = Some((1, 3));
    assert_eq!(handle_copy(&state, &lines), Some("el\nor".to_string()));
}

#[test]
fn cut_without_selection_cuts_line() {
    let settings = Settings::default();
    let mut state = create_test_state(&settings);
    let mut lines = strings(&["a", "bb", "ccc"]);
    state.cursor_line = 2;
    state.cursor_col = 2;
    let (changed, text) = handle_cut(&mut state, &mut lines);
    assert!(changed);
    assert_eq!(text, Some("ccc\n".to_string()));
    assert_eq!(lines, strings(&["a", "bb"]));
    // last line cut: cursor goes to the previous line, column clamped
    assert_eq!((state.cursor_line, state.cursor_col), (1, 2));
    assert!(matches!(&state.undo_history.edits[0], Edit::DeleteLine { line: 2, content } if content == "ccc"));
}

#[test]
fn cut_middle_line_moves_cursor_to_line_start() {
    let settings = Settings::default();
    let mut state = create_test_state(&settings);
    let mut lines = strings(&["a", "bb", "ccc"]);
    state.cursor_line = 1;
    state.cursor_col = 1;
    let (changed, text) = handle_cut(&mut state, &mut lines);
    assert!(changed);
    assert_eq!(text, Some("bb\n".to_string()));
    assert_eq!(lines, strings(&["a", "ccc"]));
    assert_eq!((state.cursor_line, state.cursor_col), (1, 0));
}

#[test]
fn cut_with_selection_removes_it() {
    let settings = Settings::default();
    let mut state = create_test_state(&settings);
    let mut lines = strings(&["hello world"]);
    state.selection_start = Some((0, 0));
    state.selection_end = Some((0, 6));
    let (changed, text) = handle_cut(&mut state, &mut lines);
    assert!(changed);
    assert_eq!(text, Some("hello ".to_string()));
    assert_eq!(lines, strings(&["world"]));
}

#[test]
fn cut_past_last_line_does_nothing() {
    let settings = Settings::default();
    let mut state = create_test_state(&settings);
    let mut lines = strings(&["a"]);
    state.cursor_line = 3;
    assert_eq!(handle_cut(&mut state, &mut lines), (false, None));
    assert_eq!(lines, strings(&["a"]));
}

use ue::edit_keys::{handle_editing_keys, plan_editing_key, EditingPlan};
use ue::editing::apply_undo;
use ue::editor_state::FileViewerState;
use ue::keys::{KeyCode, KeyEvent, KeyModifiers};
use ue::multi_cursor::{
    activate_multi_cursor_from_block, delete_backward_multi_cursor, delete_forward_multi_cursor,
    insert_char_block, insert_char_multi_cursor,
};
use ue::settings::Settings;
use ue::undo::{Edit, UndoHistory};

fn create_test_state(settings: &Settings) -> FileViewerState<'_> {
    FileViewerState::new(80, UndoHistory::new(), settings)
}

fn strings(v: &[&str]) -> Vec<String> {
    v.iter().map(|s| s.to_string()).collect()
}

fn key(code: KeyCode) -> KeyEvent {
    KeyEvent::new(code, KeyModifiers::none())
}

#[test]
fn multi_cursor_typing_inserts_at_every_cursor() {
    let settings = Settings::default();
    let mut state = create_test_state(&settings);
    let mut lines = strings(&["abc", "def", "g"]);
    state.cursor_line = 0;
    state.cursor_col = 1;
    state.multi_cursors = vec![(1, 1), (2, 5), (0, 3)];
    assert!(insert_char_multi_cursor(&mut state, &mut lines, 'X'));
    // (2, 5) is past the end of "g": nothing typed there
    assert_eq!(lines, strings(&["aXbcX", "dXef", "g"]));
    assert_eq!(state.cursor_col, 2);
    assert_eq!(state.multi_cursors, vec![(1, 2), (2, 6), (0, 4)]);
    assert_eq!(state.undo_history.edits.len(), 1);
    if let Edit::CompositeEdit { edits, undo_cursor } = &state.undo_history.edits[0] {
        assert_eq!(edits.len(), 3);
        // last position first
        assert!(matches!(edits[0], Edit::InsertChar { line: 1, col: 1, ch: 'X' }));
        assert!(matches!(edits[1], Edit::InsertChar { line: 0, col: 3, ch: 'X' }));
        assert!(matches!(edits[2], Edit::InsertChar { line: 0, col: 1, ch: 'X' }));
        let snap = undo_cursor.as_ref().unwrap();
        assert_eq!((snap.0, snap.1), (0, 1));
        assert_eq!(snap.2, vec![(1, 1), (2, 5), (0, 3)]);
    } else {
        panic!("should be composite edit");
    }
    assert!(apply_undo(&mut state, &mut lines, 20));
    assert_eq!(lines, strings(&["abc", "def", "g"]));
}

#[test]
fn multi_cursor_typing_nowhere_changes_nothing() {
    let settings = Settings::default();
    let mut state = create_test_state(&settings);
    let mut lines = strings(&["a"]);
    state.cursor_line = 3;
    state.multi_cursors = vec![(0, 9)];
    assert!(!insert_char_multi_cursor(&mut state, &mut lines, 'X'));
    assert_eq!(lines, strings(&["a"]));
    assert_eq!(state.multi_cursors, vec![(0, 9)]);
    assert_eq!(state.undo_history.edits.len(), 0);
}

#[test]
fn multi_cursor_backspace_deletes_before_every_cursor() {
    let settings = Settings::default();
    let mut state = create_test_state(&settings);
    let mut lines = strings(&["abcd", "xyz"]);
    state.cursor_col = 2;
    state.multi_cursors = vec![(0, 4), (1, 0), (1, 3)];
    assert!(delete_backward_multi_cursor(&mut state, &mut lines));
    assert_eq!(lines, strings(&["ac", "xy"]));
    assert_eq!(state.cursor_col, 1);
    assert_eq!(state.multi_cursors, vec![(0, 3), (1, 0), (1, 2)]);
    if let Edit::CompositeEdit { edits, .. } = &state.undo_history.edits[0] {
        assert_eq!(edits.len(), 3);
        assert!(matches!(edits[0], Edit::DeleteChar { line: 1, col: 2, ch: 'z' }));
        assert!(matches!(edits[1], Edit::DeleteChar { line: 0, col: 3, ch: 'd' }));
        assert!(matches!(edits[2], Edit::DeleteChar { line: 0, col: 1, ch: 'b' }));
    } else {
        panic!("should be composite edit");
    }
}

#[test]
fn multi_cursor_delete_removes_at_every_cursor() {
    let settings = Settings::default();
    let mut state = create_test_state(&settings);
    let mut lines = strings(&["abcd", "xyz"]);
    state.cursor_col = 0;
    state.multi_cursors = vec![(0, 2), (1, 3), (1, 1)];
    assert!(delete_forward_multi_cursor(&mut state, &mut lines));
    assert_eq!(lines, strings(&["bd", "xz"]));
    assert_eq!(state.cursor_col, 0);
    assert_eq!(state.multi_cursors, vec![(0, 2), (1, 3), (1, 1)]);
}

#[test]
fn activate_block_makes_cursors() {
    let settings = Settings::default();
    let mut state = create_test_state(&settings);
    state.block_selection = true;
    state.selection_start = Some((1, 2));
    state.selection_end = Some((3, 2));
    activate_multi_cursor_from_block(&mut state, (1, 2), (3, 2));
    assert_eq!((state.cursor_line, state.cursor_col), (1, 2));
    assert_eq!(state.multi_cursors, vec![(2, 2), (3, 2)]);
    assert!(!state.block_selection);
    assert!(state.selection_start.is_none());
}

#[test]
fn block_typing_inserts_on_each_line() {
    let settings = Settings::default();
    let mut state = create_test_state(&settings);
    let mut lines = strings(&["abc", "d", "efg"]);
    state.block_selection = true;
    state.selection_start = Some((0, 2));
    state.selection_end = Some((2, 2));
    assert!(insert_char_block(&mut state, &mut lines, '|'));
    assert_eq!(lines, strings(&["ab|c", "d|", "ef|g"]));
    assert_eq!(state.cursor_col, 3);
    assert_eq!(state.selection_start, Some((0, 3)));
    assert_eq!(state.selection_end, Some((2, 3)));
    // one undo step per line
    assert_eq!(state.undo_history.edits.len(), 3);
    assert!(matches!(state.undo_history.edits[1], Edit::InsertChar { line: 1, col: 1, ch: '|' }));
}

#[test]
fn block_typing_needs_zero_width_block() {
    let settings = Settings::default();
    let mut state = create_test_state(&settings);
    let mut lines = strings(&["abc", "def"]);
    state.block_selection = true;
    state.selection_start = Some((0, 1));
    state.selection_end = Some((1, 2));
    assert!(!insert_char_block(&mut state, &mut lines, 'x'));
    state.block_selection = false;
    state.selection_end = Some((1, 1));
    assert!(!insert_char_block(&mut state, &mut lines, 'x'));
    assert_eq!(lines, strings(&["abc", "def"]));
}

#[test]
fn editing_keys_type_with_zero_width_block_types_on_each_line() {
    let settings = Settings::default();
    let mut state = create_test_state(&settings);
    let mut lines = strings(&["abc", "def"]);
    state.block_selection = true;
    state.selection_start = Some((0, 1));
    state.selection_end = Some((1, 1));
    assert_eq!(plan_editing_key(&state, key(KeyCode::Char('x'))), EditingPlan::MultiType('x'));
    assert!(handle_editing_keys(&mut state, &mut lines, key(KeyCode::Char('x')), 20));
    assert_eq!(lines, strings(&["axbc", "dxef"]));
    assert_eq!(state.multi_cursors, vec![(1, 2)]);
}

#[test]
fn editing_keys_block_backspace_removes_columns_and_leaves_cursors() {
    let settings = Settings::default();
    let mut state = create_test_state(&settings);
    let mut lines = strings(&["abcd", "efgh"]);
    state.block_selection = true;
    state.selection_start = Some((0, 1));
    state.selection_end = Some((1, 3));
    assert_eq!(plan_editing_key(&state, key(KeyCode::Backspace)), EditingPlan::BlockRemove);
    assert!(handle_editing_keys(&mut state, &mut lines, key(KeyCode::Backspace), 20));
    assert_eq!(lines, strings(&["ad", "eh"]));
    assert_eq!((state.cursor_line, state.cursor_col), (0, 1));
    assert_eq!(state.multi_cursors, vec![(1, 1)]);
}

#[test]
fn editing_keys_replace_selection_when_typing() {
    let settings = Settings::default();
    let mut state = create_test_state(&settings);
    let mut lines = strings(&["hello world"]);
    state.selection_start = Some((0, 0));
    state.selection_end = Some((0, 6));
    assert_eq!(
        plan_editing_key(&state, key(KeyCode::Char('W'))),
        EditingPlan::Type { c: 'W', replace: true }
    );
    assert!(handle_editing_keys(&mut state, &mut lines, key(KeyCode::Char('W')), 20));
    assert_eq!(lines, strings(&["Wworld"]));
    assert_eq!(state.cursor_col, 1);
}

#[test]
fn editing_keys_other_keys_do_nothing_and_drop_cursors() {
    let settings = Settings::default();
    let mut state = create_test_state(&settings);
    let mut lines = strings(&["abc"]);
    state.multi_cursors = vec![(0, 2)];
    assert_eq!(plan_editing_key(&state, key(KeyCode::Left)), EditingPlan::Nothing);
    assert!(!handle_editing_keys(&mut state, &mut lines, key(KeyCode::Left), 20));
    assert!(state.multi_cursors.is_empty());
    let ctrl = KeyEvent::new(KeyCode::Char('c'), KeyModifiers { shift: false, control: true, alt: false });
    assert_eq!(plan_editing_key(&state, ctrl), EditingPlan::Nothing);
    assert_eq!(lines, strings(&["abc"]));
}

#[test]
fn editing_keys_enter_tab_backspace_delete() {
    let settings = Settings::default();
    let mut state = create_test_state(&settings);
    let mut lines = strings(&["abcd"]);
    state.cursor_col = 2;
    assert!(handle_editing_keys(&mut state, &mut lines, key(KeyCode::Enter), 20));
    assert_eq!(lines, strings(&["ab", "cd"]));
    assert!(handle_editing_keys(&mut state, &mut lines, key(KeyCode::Backspace), 20));
    assert_eq!(lines, strings(&["abcd"]));
    assert!(handle_editing_keys(&mut state, &mut lines, key(KeyCode::Delete), 20));
    assert_eq!(lines, strings(&["abd"]));
    assert!(handle_editing_keys(&mut state, &mut lines, key(KeyCode::Tab), 20));
    assert_eq!(lines[0].len(), 3 + settings.tab_width);
}

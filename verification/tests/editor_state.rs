use ue::coordinates::{calculate_text_width, calculate_word_wrap_points, visual_width_up_to};
use ue::editing::insert_char;
use ue::editor_state::FileViewerState;
use ue::settings::Settings;
use ue::undo::UndoHistory;

#[test]
fn cursor_visible_when_on_screen() {
    let settings = Settings::default();
    let state = FileViewerState::new(80, UndoHistory::new(), &settings);
    let lines: Vec<String> = vec!["test".to_string(); 20];

    assert!(state.is_cursor_visible(&lines, 10, 80));
    assert_eq!(state.absolute_line(), 0);
}

#[test]
fn cursor_invisible_when_saved_off_screen() {
    let settings = Settings::default();
    let mut state = FileViewerState::new(80, UndoHistory::new(), &settings);
    let lines: Vec<String> = vec!["test".to_string(); 20];

    state.top_line = 5;
    state.cursor_line = 3;
    state.saved_absolute_cursor = Some(3);

    assert!(!state.is_cursor_visible(&lines, 10, 80));
    assert_eq!(state.absolute_line(), 3);
}

#[test]
fn cursor_invisible_when_below_visible_area() {
    let settings = Settings::default();
    let mut state = FileViewerState::new(80, UndoHistory::new(), &settings);
    let lines: Vec<String> = vec!["test".to_string(); 30];

    state.top_line = 5;
    state.cursor_line = 15;

    assert!(!state.is_cursor_visible(&lines, 10, 80));
}

#[test]
fn absolute_line_uses_saved_position() {
    let settings = Settings::default();
    let mut state = FileViewerState::new(80, UndoHistory::new(), &settings);

    state.top_line = 20;
    state.cursor_line = 0;
    state.saved_absolute_cursor = Some(10);

    assert_eq!(state.absolute_line(), 10);
}

#[test]
fn absolute_line_calculates_normally_when_not_saved() {
    let settings = Settings::default();
    let mut state = FileViewerState::new(80, UndoHistory::new(), &settings);

    state.top_line = 20;
    state.cursor_line = 5;
    state.saved_absolute_cursor = None;

    assert_eq!(state.absolute_line(), 25);
}

#[test]
fn ensure_cursor_visible_brings_below_cursor_to_bottom() {
    let settings = Settings::default();
    let mut state = FileViewerState::new(80, UndoHistory::new(), &settings);
    let lines: Vec<String> = vec!["test".to_string(); 30];

    state.top_line = 10;
    state.cursor_line = 15;

    state.ensure_cursor_visible(10, &lines);

    assert_eq!(state.cursor_line, 9);
    assert_eq!(state.top_line, 16);
    assert!(state.saved_absolute_cursor.is_none());
}

#[test]
fn ensure_cursor_visible_brings_above_cursor_to_top() {
    let settings = Settings::default();
    let mut state = FileViewerState::new(80, UndoHistory::new(), &settings);
    let lines: Vec<String> = vec!["test".to_string(); 30];

    state.top_line = 20;
    state.cursor_line = 0;
    state.saved_absolute_cursor = Some(15);

    state.ensure_cursor_visible(10, &lines);

    assert_eq!(state.cursor_line, 0);
    assert_eq!(state.top_line, 15);
    assert!(state.saved_absolute_cursor.is_none());
}

#[test]
fn ensure_cursor_visible_clears_saved_position() {
    let settings = Settings::default();
    let mut state = FileViewerState::new(80, UndoHistory::new(), &settings);
    let lines: Vec<String> = vec!["test".to_string(); 30];

    state.top_line = 5;
    state.cursor_line = 3;
    state.saved_absolute_cursor = Some(8);

    state.ensure_cursor_visible(10, &lines);

    assert!(state.saved_absolute_cursor.is_none());
}

#[test]
fn clear_selection_removes_selection_and_sets_redraw() {
    let settings = Settings::default();
    let mut state = FileViewerState::new(80, UndoHistory::new(), &settings);

    state.selection_start = Some((0, 0));
    state.selection_end = Some((0, 5));
    state.needs_redraw = false;

    assert!(state.has_selection());

    state.clear_selection();

    assert!(!state.has_selection());
    assert!(state.needs_redraw);
    assert!(state.selection_start.is_none());
    assert!(state.selection_end.is_none());
}

#[test]
fn zero_width_block_selection_shows_as_multi_line_cursors() {
    let settings = Settings::default();
    let mut state = FileViewerState::new(80, UndoHistory::new(), &settings);

    assert!(!state.block_selection);
    assert!(state.selection_start.is_none());

    state.block_selection = true;
    state.selection_start = Some((1, 5));
    state.selection_end = Some((3, 5));

    let is_zero_width = state.block_selection
        && if let Some((start, end)) = state.selection_range() {
            start.1 == end.1 && start.0 != end.0
        } else {
            false
        };
    assert!(is_zero_width, "Should be detected as zero-width block selection");

    state.clear_selection();
    assert!(!state.block_selection);
    assert!(state.selection_start.is_none());
}

#[test]
fn block_selection_checks_column_range_only() {
    let settings = Settings::default();
    let mut state = FileViewerState::new(80, UndoHistory::new(), &settings);

    state.selection_start = Some((1, 5));
    state.selection_end = Some((3, 10));
    state.block_selection = true;

    assert!(state.is_point_in_selection((1, 5)));
    assert!(state.is_point_in_selection((1, 7)));
    assert!(state.is_point_in_selection((2, 5)));
    assert!(state.is_point_in_selection((2, 9)));
    assert!(state.is_point_in_selection((3, 5)));

    assert!(!state.is_point_in_selection((0, 5)));
    assert!(!state.is_point_in_selection((4, 5)));
    assert!(!state.is_point_in_selection((2, 4)));
    assert!(!state.is_point_in_selection((2, 10)));
    assert!(!state.is_point_in_selection((2, 11)));
}

#[test]
fn clear_selection_resets_block_mode() {
    let settings = Settings::default();
    let mut state = FileViewerState::new(80, UndoHistory::new(), &settings);

    state.selection_start = Some((0, 0));
    state.selection_end = Some((2, 5));
    state.block_selection = true;

    state.clear_selection();

    assert!(!state.block_selection);
}

#[test]
fn wrap_cursor_move_right_past_indicator() {
    let settings = Settings::default();
    let mut state = FileViewerState::new(80, UndoHistory::new(), &settings);

    let lines = vec!["x".repeat(100)];
    let visible_lines = 10;

    state.toggle_line_wrapping();

    let text_width = calculate_text_width(&state, &lines, visible_lines);
    let usable_width = (text_width as usize).saturating_sub(1);

    let wrap_points = calculate_word_wrap_points(&lines[0], text_width as usize, 4);
    assert!(!wrap_points.is_empty(), "Should have wrap points for long line");

    state.cursor_col = 0;

    for _ in 0..80 {
        let old_col = state.cursor_col;

        let moved = state.move_cursor_right(&lines, visible_lines);

        if !moved {
            break;
        }

        assert!(state.cursor_col > old_col, "Cursor should advance on move_right");

        let visual_col_after = visual_width_up_to(&lines[0], state.cursor_col, 4);
        let wrap_points = calculate_word_wrap_points(&lines[0], text_width as usize, 4);

        let mut segment_start = 0;
        for &wp in &wrap_points {
            if state.cursor_col < wp {
                break;
            }
            segment_start = wp;
        }

        let segment_start_visual = visual_width_up_to(&lines[0], segment_start, 4);
        let offset_in_segment = visual_col_after - segment_start_visual;

        if state.cursor_col < lines[0].len() {
            assert!(offset_in_segment < usable_width,
                   "Cursor at col {} should not be at wrap indicator position (offset {} >= usable {})",
                   state.cursor_col, offset_in_segment, usable_width);
        }
    }
}

#[test]
fn cursor_at_wrap_point_behavior() {
    let settings = Settings::default();
    let mut state = FileViewerState::new(80, UndoHistory::new(), &settings);

    let lines = vec!["x".repeat(100)];

    state.toggle_line_wrapping();

    state.cursor_col = 10;
    state.cursor_at_wrap_end = false;

    state.cursor_at_wrap_end = true;
    assert!(state.cursor_at_wrap_end);

    state.cursor_at_wrap_end = false;
    assert!(!state.cursor_at_wrap_end);

    state.cursor_at_wrap_end = true;
    let _ = insert_char(&mut state, &mut vec![lines[0].clone()], 'a');
    assert!(!state.cursor_at_wrap_end, "Typing should clear cursor_at_wrap_end");
}

#[test]
fn cursor_at_wrap_point_from_right() {
    let settings = Settings::default();
    let mut state = FileViewerState::new(80, UndoHistory::new(), &settings);

    let lines = vec!["x".repeat(100)];
    let visible_lines = 10;

    state.toggle_line_wrapping();

    let text_width = calculate_text_width(&state, &lines, visible_lines);
    let wrap_points = calculate_word_wrap_points(&lines[0], text_width as usize, 4);
    let first_wrap = wrap_points[0];

    state.cursor_col = first_wrap + 1;
    state.cursor_at_wrap_end = false;

    let moved = state.move_cursor_left(&lines);
    assert!(moved);
    assert_eq!(state.cursor_col, first_wrap);
    assert!(!state.cursor_at_wrap_end, "Moving left to wrap point should be at start of segment");

    let moved2 = state.move_cursor_left(&lines);
    assert!(moved2);
    assert_eq!(state.cursor_col, first_wrap - 1);
    assert!(!state.cursor_at_wrap_end);
}

#[test]
fn block_selection_direction_change_left() {
    let settings = Settings::default();
    let mut state = FileViewerState::new(80, UndoHistory::new(), &settings);

    state.top_line = 0;
    state.cursor_line = 2;
    state.cursor_col = 5;
    state.block_selection = true;

    state.start_selection();
    assert_eq!(state.selection_anchor, Some((2, 5)));

    state.cursor_line = 3;
    state.update_selection();
    assert_eq!(state.selection_start, Some((2, 5)));
    assert_eq!(state.selection_end, Some((3, 5)));

    state.cursor_col = 6;
    state.update_selection();
    assert_eq!(state.selection_start, Some((2, 5)));
    assert_eq!(state.selection_end, Some((3, 6)));

    state.cursor_col = 5;
    state.update_selection();
    assert_eq!(state.selection_start, Some((2, 5)));
    assert_eq!(state.selection_end, Some((3, 5)));

    state.cursor_col = 4;
    state.update_selection();
    assert_eq!(state.selection_start, Some((2, 4)));
    assert_eq!(state.selection_end, Some((3, 5)));

    state.cursor_col = 3;
    state.update_selection();
    assert_eq!(state.selection_start, Some((2, 3)));
    assert_eq!(state.selection_end, Some((3, 5)));
}

use ue::editor_state::FileViewerState;
use ue::find::SearchRegex;
use ue::find_step::{find_next_occurrence, find_prev_occurrence, update_search_hit_count};
use ue::search::{
    calculate_search_hits, calculate_search_hits_checked, find_next, find_next_checked, find_next_multiline,
    find_prev, find_prev_checked, find_prev_multiline,
};
use ue::settings::Settings;
use ue::undo::UndoHistory;

fn regex(p: &str) -> SearchRegex {
    SearchRegex::new(p.to_string()).unwrap()
}

fn strings(v: &[&str]) -> Vec<String> {
    v.iter().map(|s| s.to_string()).collect()
}

#[test]
fn find_simple_pattern() {
    let lines = strings(&["hello world", "foo bar", "hello again"]);
    let regex = regex("(?i)hello");
    assert_eq!(find_next(&lines, (0, 0), &regex, false, None), Some((2, 0)));
    assert_eq!(find_next(&lines, (0, 4), &regex, false, None), Some((2, 0)));
    assert_eq!(find_next(&lines, (1, 0), &regex, false, None), Some((2, 0)));
}

#[test]
fn find_wraps_around() {
    let lines = strings(&["hello world", "foo bar"]);
    let regex = regex("(?i)hello");
    assert_eq!(find_next(&lines, (1, 5), &regex, true, None), Some((0, 0)));
}

#[test]
fn find_no_match() {
    let lines = strings(&["hello world", "foo bar"]);
    let regex = regex("(?i)notfound");
    assert_eq!(find_next(&lines, (0, 0), &regex, false, None), None);
}

#[test]
fn find_case_insensitive_by_default() {
    let lines = strings(&["Hello World", "HELLO WORLD", "hello world"]);
    let regex1 = regex("(?i)hello");
    assert_eq!(find_next(&lines, (0, 0), &regex1, false, None), Some((1, 0)));
    assert_eq!(find_next(&lines, (1, 0), &regex1, false, None), Some((2, 0)));
    let regex2 = regex("(?i)HELLO");
    assert_eq!(find_next(&lines, (0, 0), &regex2, false, None), Some((1, 0)));
}

#[test]
fn find_next_within_scope_single_line() {
    let lines = strings(&["hello world hello again hello end"]);
    let regex = regex("(?i)hello");
    let scope = Some(((0, 12), (0, 29)));
    assert_eq!(find_next(&lines, (0, 5), &regex, false, scope), Some((0, 12)));
    assert_eq!(find_next(&lines, (0, 12), &regex, false, scope), Some((0, 24)));
    assert_eq!(find_next(&lines, (0, 24), &regex, false, scope), None);
}

#[test]
fn find_next_within_scope_multi_line() {
    let lines = strings(&["first line", "hello world", "middle line", "hello again", "last line"]);
    let regex = regex("(?i)hello");
    let scope = Some(((1, 0), (3, 11)));
    assert_eq!(find_next(&lines, (0, 5), &regex, false, scope), Some((1, 0)));
    assert_eq!(find_next(&lines, (1, 0), &regex, false, scope), Some((3, 0)));
    assert_eq!(find_next(&lines, (3, 0), &regex, false, scope), None);
}

#[test]
fn find_prev_within_scope_single_line() {
    let lines = strings(&["hello world hello again hello end"]);
    let regex = regex("(?i)hello");
    let scope = Some(((0, 12), (0, 29)));
    assert_eq!(find_prev(&lines, (0, 30), &regex, false, scope), Some((0, 24)));
    assert_eq!(find_prev(&lines, (0, 24), &regex, false, scope), Some((0, 12)));
    assert_eq!(find_prev(&lines, (0, 12), &regex, false, scope), None);
}

#[test]
fn find_prev_within_scope_multi_line() {
    let lines = strings(&["first line", "hello world", "middle line", "hello again", "last line"]);
    let regex = regex("(?i)hello");
    let scope = Some(((1, 0), (3, 11)));
    assert_eq!(find_prev(&lines, (4, 0), &regex, false, scope), Some((3, 0)));
    assert_eq!(find_prev(&lines, (3, 0), &regex, false, scope), Some((1, 0)));
    assert_eq!(find_prev(&lines, (1, 0), &regex, false, scope), None);
}

#[test]
fn find_next_wrap_within_scope() {
    let lines = strings(&["first line", "hello world", "middle line", "hello again", "last line"]);
    let regex = regex("(?i)hello");
    let scope = Some(((1, 0), (3, 11)));
    assert_eq!(find_next(&lines, (3, 0), &regex, true, scope), Some((1, 0)));
}

#[test]
fn find_prev_wrap_within_scope() {
    let lines = strings(&["first line", "hello world", "middle line", "hello again", "last line"]);
    let regex = regex("(?i)hello");
    let scope = Some(((1, 0), (3, 11)));
    assert_eq!(find_prev(&lines, (1, 0), &regex, true, scope), Some((3, 0)));
}

#[test]
fn find_next_two_press_wrap() {
    let lines = strings(&["hello world", "foo bar", "baz qux"]);
    let settings = Settings::default();
    let mut state = FileViewerState::new(80, UndoHistory::new(), &settings);
    state.cursor_line = 2;
    state.top_line = 0;
    state.cursor_col = 0;
    state.last_search_pattern = Some("hello".to_string());
    assert!(find_next_occurrence(&mut state, &lines, 10));
    assert_eq!(state.wrap_warning_pending, None);
    assert_eq!(state.absolute_line(), 0);
    assert_eq!(state.cursor_col, 0);
}

#[test]
fn find_prev_two_press_wrap() {
    let lines = strings(&["foo bar", "baz qux", "hello world"]);
    let settings = Settings::default();
    let mut state = FileViewerState::new(80, UndoHistory::new(), &settings);
    state.cursor_line = 0;
    state.top_line = 0;
    state.cursor_col = 0;
    state.last_search_pattern = Some("hello".to_string());
    assert!(find_prev_occurrence(&mut state, &lines, 10));
    assert_eq!(state.wrap_warning_pending, None);
    assert_eq!(state.absolute_line(), 2);
    assert_eq!(state.cursor_col, 0);
}

#[test]
fn find_next_clears_warning_on_match() {
    let lines = strings(&["hello world", "hello again", "foo bar"]);
    let settings = Settings::default();
    let mut state = FileViewerState::new(80, UndoHistory::new(), &settings);
    state.last_search_pattern = Some("hello".to_string());
    state.wrap_warning_pending = Some("next".to_string());
    assert!(find_next_occurrence(&mut state, &lines, 10));
    assert_eq!(state.wrap_warning_pending, None);
    assert_eq!(state.absolute_line(), 1);
}

#[test]
fn find_on_last_line_wraps_correctly() {
    let lines = strings(&["first line", "second line", "find this"]);
    let settings = Settings::default();
    let mut state = FileViewerState::new(80, UndoHistory::new(), &settings);
    state.cursor_line = 2;
    state.top_line = 0;
    state.cursor_col = 0;
    state.last_search_pattern = Some("find".to_string());
    assert!(find_next_occurrence(&mut state, &lines, 10));
    assert_eq!(state.wrap_warning_pending, None);
    assert_eq!(state.absolute_line(), 2);
    assert_eq!(state.cursor_col, 0);
    assert!(state.search_wrapped);
}

#[test]
fn test_calculate_search_hits() {
    let lines = strings(&[
        "This is a test file",
        "The word test appears here",
        "Here is another test",
        "And yet another test word",
        "No match on this line",
        "But this has test again",
    ]);
    assert_eq!(calculate_search_hits(&lines, (0, 0), "test", true, None), (0, 5));
    assert_eq!(calculate_search_hits(&lines, (0, 10), "test", true, None), (1, 5));
    assert_eq!(calculate_search_hits(&lines, (2, 16), "test", true, None), (3, 5));
    let scope = Some(((1, 0), (3, 25)));
    assert_eq!(calculate_search_hits(&lines, (2, 16), "test", true, scope), (2, 3));
    let (_current, total) = calculate_search_hits(&lines, (0, 0), "TEST", true, None);
    assert_eq!(total, 5);
}

#[test]
fn test_calculate_search_hits_no_matches() {
    let lines = strings(&["This is a test file", "The word test appears here"]);
    assert_eq!(calculate_search_hits(&lines, (0, 0), "nomatch", true, None), (0, 0));
}

#[test]
fn test_wrapping_is_immediate() {
    let lines = strings(&["first line", "test here", "last line"]);
    let settings = Settings::default();
    let mut state = FileViewerState::new(80, UndoHistory::new(), &settings);
    state.cursor_line = 2;
    state.last_search_pattern = Some("test".to_string());
    assert!(find_next_occurrence(&mut state, &lines, 10));
    assert_eq!(state.absolute_line(), 1);
    assert_eq!(state.cursor_col, 0);
    assert_eq!(state.wrap_warning_pending, None);
}

#[test]
fn test_no_error_messages_on_no_match() {
    let lines = strings(&["first line", "second line"]);
    let settings = Settings::default();
    let mut state = FileViewerState::new(80, UndoHistory::new(), &settings);
    state.last_search_pattern = Some("nomatch".to_string());
    assert!(find_next_occurrence(&mut state, &lines, 10));
    assert_eq!(state.cursor_line, 0);
    assert_eq!(state.cursor_col, 0);
    assert!(state.needs_redraw);
}

#[test]
fn test_find_prev_wraps_immediately() {
    let lines = strings(&["first line", "test here", "last line"]);
    let settings = Settings::default();
    let mut state = FileViewerState::new(80, UndoHistory::new(), &settings);
    state.last_search_pattern = Some("test".to_string());
    assert!(find_prev_occurrence(&mut state, &lines, 10));
    assert_eq!(state.absolute_line(), 1);
    assert_eq!(state.cursor_col, 0);
    assert_eq!(state.wrap_warning_pending, None);
}

#[test]
fn find_next_multiline_matches_across_lines() {
    let lines = strings(&["hello", "", "world"]);
    let regex = regex("(?i)(?ms)hello\n\nworld");
    assert_eq!(find_next_multiline(&lines, (2, 5), &regex, true, None), Some((0, 0)));
}

#[test]
fn find_prev_takes_last_match_before_cursor_on_line() {
    let lines = strings(&["ab ab ab ab"]);
    let regex = regex("(?i)ab");
    assert_eq!(find_prev(&lines, (0, 7), &regex, false, None), Some((0, 6)));
    assert_eq!(find_prev(&lines, (0, 0), &regex, false, None), None);
    assert_eq!(find_prev(&lines, (0, 0), &regex, true, None), Some((0, 9)));
}

#[test]
fn find_prev_multiline_finds_match_before_cursor() {
    let lines = strings(&["one", "two", "one", "two"]);
    let regex = regex("(?i)(?ms)one\ntwo");
    assert_eq!(find_prev_multiline(&lines, (3, 0), &regex, false, None), Some((0, 0)));
    assert_eq!(find_prev_multiline(&lines, (0, 0), &regex, false, None), None);
    assert_eq!(find_prev_multiline(&lines, (0, 0), &regex, true, None), Some((2, 0)));
}

#[test]
fn search_inside_a_character_cannot_be_done() {
    // Byte 1 is inside the two-byte 'é'.
    let lines = strings(&["\u{e9}x"]);
    let regex = regex("(?i)x");
    assert_eq!(find_next_checked(&lines, (0, 0), &regex, false, None), None);
    assert_eq!(find_prev_checked(&lines, (0, 3), &regex, false, None), Some(Some((0, 2))));
}

#[test]
fn multi_line_hits_are_counted_on_the_joined_text() {
    let lines = strings(&["a", "b", "a", "b"]);
    assert_eq!(calculate_search_hits(&lines, (2, 0), "a\\nb", false, None), (2, 2));
    assert_eq!(calculate_search_hits(&lines, (1, 0), "a\\nb", false, None), (0, 2));
}

#[test]
fn hits_of_invalid_regex_are_zero() {
    let lines = strings(&["abc"]);
    assert_eq!(calculate_search_hits_checked(&lines, (0, 0), "(", true, None), Some((0, 0)));
}

#[test]
fn hits_in_empty_document_cannot_be_counted() {
    let lines: Vec<String> = Vec::new();
    assert_eq!(calculate_search_hits_checked(&lines, (0, 0), "a", true, None), None);
}

#[test]
fn update_search_hit_count_counts_at_cursor() {
    let lines = strings(&["foo x foo", "foo"]);
    let settings = Settings::default();
    let mut state = FileViewerState::new(80, UndoHistory::new(), &settings);
    state.last_search_pattern = Some("foo".to_string());
    state.cursor_col = 6;
    assert!(update_search_hit_count(&mut state, &lines));
    assert_eq!((state.search_current_hit, state.search_hit_count), (2, 3));
    state.last_search_pattern = None;
    assert!(update_search_hit_count(&mut state, &lines));
    assert_eq!((state.search_current_hit, state.search_hit_count), (0, 0));
}

#[test]
fn find_next_occurrence_updates_hit_count() {
    let lines = strings(&["foo", "bar", "foo", "foo"]);
    let settings = Settings::default();
    let mut state = FileViewerState::new(80, UndoHistory::new(), &settings);
    state.last_search_pattern = Some("foo".to_string());
    assert!(find_next_occurrence(&mut state, &lines, 10));
    assert_eq!(state.absolute_line(), 2);
    assert_eq!((state.search_current_hit, state.search_hit_count), (2, 3));
    assert!(!state.search_wrapped);
}

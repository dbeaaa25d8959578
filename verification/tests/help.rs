use ue::help::{handle_help_input, truncate_rendered_line, truncate_to_width, HelpContext};
use ue::keys::{KeyCode, KeyEvent, KeyModifiers};

#[test]
fn test_truncate_to_width_handles_utf8() {
    let text = "├────────────┼──────────────────┤";
    let truncated = truncate_to_width(text, 10);
    assert!(truncated.len() <= 30);
    assert!(truncated.is_empty() || truncated.chars().count() <= 10);
}

#[test]
fn test_truncate_to_width_handles_ascii() {
    let text = "Hello, World!";
    let truncated = truncate_to_width(text, 5);
    assert_eq!(truncated, "Hello");
}

#[test]
fn test_truncate_to_width_preserves_ansi_codes() {
    let text = "\x1b[1mBold Text\x1b[0m";
    let truncated = truncate_to_width(text, 5);
    assert!(truncated.contains("\x1b[1m"), "Should preserve ANSI codes");
    assert!(truncated.contains("Bold"), "Should have some content");
}

#[test]
fn test_truncate_to_width_no_truncation_needed() {
    let text = "Short";
    let truncated = truncate_to_width(text, 100);
    assert_eq!(truncated, text);
}

#[test]
fn test_truncate_to_width_empty_string() {
    let text = "";
    let truncated = truncate_to_width(text, 10);
    assert_eq!(truncated, "");
}

#[test]
fn test_truncate_to_width_unicode_emoji() {
    let text = "Hello 👋 World 🌍";
    let truncated = truncate_to_width(text, 8);
    assert!(truncated.len() > 0);
    assert!(truncated.chars().count() <= 8);
}

#[test]
fn truncate_keeps_escape_sequences_after_the_cut_point_out() {
    let text = "ab\x1b[31mcd\x1b[0m";
    assert_eq!(truncate_to_width(text, 3), "ab\x1b[31mc");
    assert_eq!(truncate_rendered_line(text, 0), "");
}

#[test]
fn help_closes_on_esc_and_f1_only() {
    let none = KeyModifiers::none();
    assert!(handle_help_input(KeyEvent::new(KeyCode::Esc, none)));
    assert!(handle_help_input(KeyEvent::new(KeyCode::F(1), none)));
    assert!(!handle_help_input(KeyEvent::new(KeyCode::F(2), none)));
    assert!(!handle_help_input(KeyEvent::new(KeyCode::Char('q'), none)));
}

#[test]
fn help_contexts_are_distinct() {
    assert_ne!(HelpContext::Editor, HelpContext::Find);
}

#[test]
fn truncate_counts_display_width() {
    assert_eq!(truncate_to_width("Hello \u{1f44b} World", 8), "Hello \u{1f44b}");
    assert_eq!(truncate_to_width("Hello \u{1f44b} World", 7), "Hello ");
    assert_eq!(truncate_to_width("\x1b[1mBold Text\x1b[0m", 5), "\x1b[1mBold ");
}

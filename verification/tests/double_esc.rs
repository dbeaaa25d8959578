use ue::double_esc::{DoubleEscDetector, EscResult};
use ue::keys::{KeyCode, KeyEvent, KeyModifiers};

fn esc() -> KeyEvent {
    KeyEvent::new(KeyCode::Esc, KeyModifiers::none())
}

#[test]
fn timed_out_returns_false_initially() {
    let detector = DoubleEscDetector::new(300);
    assert!(!detector.timed_out());
}

#[test]
fn remaining_timeout_is_large_when_no_pending_esc() {
    let detector = DoubleEscDetector::new(300);
    let timeout = detector.remaining_timeout();
    assert!(timeout.as_secs() > 1000);
}

#[test]
fn first_esc_returns_first() {
    let mut detector = DoubleEscDetector::new(300);
    let result = detector.process_key(&esc());
    assert!(matches!(result, EscResult::First));
}

#[test]
fn second_esc_at_threshold_is_double() {
    let mut detector = DoubleEscDetector::new(300);
    assert!(matches!(detector.process_key_at(&esc(), 1000000000), EscResult::First));
    assert!(matches!(detector.process_key_at(&esc(), 1300000000), EscResult::Double));
    assert!(matches!(detector.process_key_at(&esc(), 1400000000), EscResult::First));
}

#[test]
fn second_esc_after_threshold_is_first_again() {
    let mut detector = DoubleEscDetector::new(100);
    assert!(matches!(detector.process_key_at(&esc(), 0), EscResult::First));
    assert!(matches!(detector.process_key_at(&esc(), 150000000), EscResult::First));
    assert!(matches!(detector.process_key_at(&esc(), 200000000), EscResult::Double));
}

#[test]
fn other_key_or_modified_esc_clears_pending() {
    let mut detector = DoubleEscDetector::new(300);
    let _ = detector.process_key_at(&esc(), 10000000);
    let ctrl = KeyModifiers { shift: false, control: true, alt: false };
    assert!(matches!(detector.process_key_at(&KeyEvent::new(KeyCode::Esc, ctrl), 20), EscResult::Ignored));
    assert!(matches!(detector.process_key_at(&esc(), 30000000), EscResult::First));
    let a = KeyEvent::new(KeyCode::Char('a'), KeyModifiers::none());
    assert!(matches!(detector.process_key_at(&a, 40000000), EscResult::Ignored));
    assert!(!detector.timed_out_at(10000000000));
}

#[test]
fn timeout_and_remaining_time_follow_the_clock() {
    let mut detector = DoubleEscDetector::new(50);
    let _ = detector.process_key_at(&esc(), 100000000);
    assert!(!detector.timed_out_at(120000000));
    assert_eq!(detector.remaining_nanos_at(120000000), 30000000);
    assert!(detector.timed_out_at(150000000));
    assert_eq!(detector.remaining_nanos_at(170000000), 0);
    detector.clear();
    assert!(!detector.timed_out_at(1000000000));
    assert_eq!(detector.remaining_nanos_at(1000000000), 86400000000000);
}

#[test]
fn half_a_millisecond_past_the_threshold_is_not_double() {
    let mut detector = DoubleEscDetector::new(300);
    assert!(matches!(detector.process_key_at(&esc(), 0), EscResult::First));
    assert!(matches!(detector.process_key_at(&esc(), 300_500_000), EscResult::First));
}

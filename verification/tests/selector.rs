use ue::keys::{KeyCode, KeyEvent, KeyModifiers};
use ue::selector::{file_selector_step, SelectorAction, SelectorState};

fn key(code: KeyCode) -> KeyEvent {
    KeyEvent::new(code, KeyModifiers::none())
}

fn ctrl(c: char) -> KeyEvent {
    KeyEvent::new(KeyCode::Char(c), KeyModifiers { shift: false, control: true, alt: false })
}

fn shift(c: char) -> KeyEvent {
    KeyEvent::new(KeyCode::Char(c), KeyModifiers { shift: true, control: false, alt: false })
}

fn at(selected: usize, scroll: usize) -> SelectorState {
    SelectorState { selected, scroll, help_active: false, help_scroll: 0, full_redraw: false }
}

#[test]
fn down_scrolls_to_keep_the_selection_on_screen() {
    let (s, a) = file_selector_step(at(2, 0), 10, key(KeyCode::Down), 3);
    assert_eq!(a, SelectorAction::Continue);
    assert_eq!((s.selected, s.scroll), (3, 1));
    let (s, _) = file_selector_step(at(9, 7), 10, key(KeyCode::Char('j')), 3);
    assert_eq!((s.selected, s.scroll), (9, 7));
}

#[test]
fn up_scrolls_back_to_the_selection() {
    let (s, _) = file_selector_step(at(3, 3), 10, key(KeyCode::Char('k')), 3);
    assert_eq!((s.selected, s.scroll), (2, 2));
    let (s, _) = file_selector_step(at(0, 0), 10, key(KeyCode::Up), 3);
    assert_eq!((s.selected, s.scroll), (0, 0));
}

#[test]
fn page_down_keeps_the_last_page_full() {
    let (s, _) = file_selector_step(at(1, 0), 10, key(KeyCode::PageDown), 4);
    assert_eq!((s.selected, s.scroll), (5, 4));
    let (s, _) = file_selector_step(at(5, 4), 10, key(KeyCode::PageDown), 4);
    assert_eq!((s.selected, s.scroll), (9, 6));
    let (s, _) = file_selector_step(at(5, 4), 10, key(KeyCode::PageUp), 4);
    assert_eq!((s.selected, s.scroll), (1, 0));
}

#[test]
fn home_end_g_and_shift_g_jump() {
    let (s, _) = file_selector_step(at(5, 4), 10, shift('G'), 4);
    assert_eq!((s.selected, s.scroll), (9, 6));
    let (s, _) = file_selector_step(at(5, 4), 10, key(KeyCode::Char('g')), 4);
    assert_eq!((s.selected, s.scroll), (0, 0));
    let (s, _) = file_selector_step(at(0, 0), 10, key(KeyCode::End), 4);
    assert_eq!((s.selected, s.scroll), (9, 6));
    let (s, _) = file_selector_step(at(5, 4), 10, key(KeyCode::Home), 4);
    assert_eq!((s.selected, s.scroll), (0, 0));
}

#[test]
fn enter_opens_and_q_esc_ctrl_c_leave() {
    assert_eq!(file_selector_step(at(4, 0), 10, key(KeyCode::Enter), 4).1, SelectorAction::Open(4));
    assert_eq!(file_selector_step(at(0, 0), 0, key(KeyCode::Enter), 4).1, SelectorAction::Continue);
    assert_eq!(file_selector_step(at(4, 0), 10, key(KeyCode::Char('q')), 4).1, SelectorAction::Cancel);
    assert_eq!(file_selector_step(at(4, 0), 10, key(KeyCode::Esc), 4).1, SelectorAction::Cancel);
    assert_eq!(file_selector_step(at(4, 0), 10, ctrl('c'), 4).1, SelectorAction::Cancel);
}

#[test]
fn ctrl_w_removes_the_selected_file() {
    let (s, a) = file_selector_step(at(9, 6), 10, ctrl('w'), 4);
    assert_eq!(a, SelectorAction::Remove(9));
    assert_eq!((s.selected, s.scroll), (8, 5));
    assert!(s.full_redraw);
    let (_, a) = file_selector_step(at(0, 0), 1, ctrl('w'), 4);
    assert_eq!(a, SelectorAction::RemoveAndExit(0));
}

#[test]
fn f1_toggles_help_and_keys_scroll_it() {
    let (s, _) = file_selector_step(at(2, 0), 10, key(KeyCode::F(1)), 4);
    assert!(s.help_active);
    let (s, a) = file_selector_step(s, 10, key(KeyCode::Down), 4);
    assert_eq!(a, SelectorAction::Continue);
    assert_eq!(s.help_scroll, 1);
    assert_eq!(s.selected, 2);
    let (s, a) = file_selector_step(s, 10, key(KeyCode::Esc), 4);
    assert_eq!(a, SelectorAction::Continue);
    assert!(!s.help_active);
}

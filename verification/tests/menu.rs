use ue::menu::{count_files_in_menu, Menu, MenuAction, MenuBar, MenuItem};

#[test]
fn test_menu_bar_creation() {
    let menu_bar = MenuBar::new();
    assert_eq!(menu_bar.menus.len(), 4);
    assert_eq!(menu_bar.menus[0].label, "File");
    assert_eq!(menu_bar.menus[1].label, "Edit");
    assert_eq!(menu_bar.menus[2].label, "View");
    assert_eq!(menu_bar.menus[3].label, "Help");
}

#[test]
fn test_menu_activation_by_hotkey() {
    let mut menu_bar = MenuBar::new();
    assert!(!menu_bar.active);

    assert!(menu_bar.try_activate_by_hotkey('f'));
    assert!(menu_bar.active);
    assert_eq!(menu_bar.selected_menu_index, 0);

    menu_bar.close();
    assert!(menu_bar.try_activate_by_hotkey('e'));
    assert_eq!(menu_bar.selected_menu_index, 1);
}

#[test]
fn test_menu_navigation() {
    let mut menu_bar = MenuBar::new();
    menu_bar.open();

    assert_eq!(menu_bar.selected_menu_index, 0);
    menu_bar.next_menu();
    assert_eq!(menu_bar.selected_menu_index, 1);

    menu_bar.prev_menu();
    assert_eq!(menu_bar.selected_menu_index, 0);
}

#[test]
fn test_item_navigation_skips_separators() {
    let mut menu_bar = MenuBar::new();
    menu_bar.open();

    menu_bar.selected_item_index = 0;
    for _ in 0..5 {
        menu_bar.next_item();
    }
    if let MenuItem::Separator = menu_bar.menus[0].items[menu_bar.selected_item_index] {
        panic!("Should not land on separator");
    }
}

#[test]
fn test_checkable_update() {
    let mut menu_bar = MenuBar::new();
    menu_bar.update_checkable(MenuAction::ViewLineWrap, true);

    for menu in &menu_bar.menus {
        for item in &menu.items {
            if let MenuItem::Checkable { action, checked, .. } = item {
                if *action == MenuAction::ViewLineWrap {
                    assert!(checked);
                }
            }
        }
    }
}

#[test]
fn test_up_down_navigation_skips_separators() {
    let mut menu_bar = MenuBar::new();
    menu_bar.open_dropdown();

    // File menu: New, Open..., Save, Close, Close all, [Separator], Quit
    menu_bar.selected_item_index = 4;
    menu_bar.next_item();

    let item = &menu_bar.menus[0].items[menu_bar.selected_item_index];
    if let MenuItem::Action { label, .. } = item {
        assert_eq!(label, "Quit", "Should skip separator");
    } else {
        panic!("Should be on an action item, not separator");
    }
}

#[test]
fn prev_item_from_quit_skips_separator_back() {
    let mut menu_bar = MenuBar::new();
    menu_bar.open_dropdown();
    menu_bar.selected_item_index = 6;
    menu_bar.prev_item();
    assert_eq!(menu_bar.selected_item_index, 4);
}

#[test]
fn selected_action_of_first_file_item_is_new() {
    let mut menu_bar = MenuBar::new();
    menu_bar.open_dropdown();
    menu_bar.selected_item_index = 0;
    assert_eq!(menu_bar.get_selected_action(), Some(MenuAction::FileNew));
}

#[test]
fn unknown_hotkey_does_not_activate() {
    let mut menu_bar = MenuBar::new();
    assert!(!menu_bar.try_activate_by_hotkey('z'));
    assert!(!menu_bar.active);
}

#[test]
fn next_menu_wraps_to_first() {
    let mut menu_bar = MenuBar::new();
    menu_bar.open();
    for _ in 0..4 {
        menu_bar.next_menu();
    }
    assert_eq!(menu_bar.selected_menu_index, 0);
}

#[test]
fn fresh_file_menu_lists_no_files() {
    let m = MenuBar::new();
    assert_eq!(count_files_in_menu(&m.menus[0]), 0);
    let items = MenuBar::build_file_menu_items(vec!["a".to_string(), "b".to_string()], false);
    assert_eq!(count_files_in_menu(&Menu::new("File", 'f', items)), 2);
}

#[test]
fn jump_to_prev_section_goes_to_end_of_previous_section() {
    let mut m = MenuBar::new();
    m.open();
    m.selected_menu_index = 1;
    m.selected_item_index = 4; // Cut
    m.jump_to_prev_section();
    assert_eq!(m.selected_item_index, 1); // Redo
    m.selected_item_index = 7; // Find
    m.jump_to_prev_section();
    assert_eq!(m.selected_item_index, 5); // Paste
}

#[test]
fn jump_to_prev_section_in_first_section_stays_at_first_item() {
    let mut m = MenuBar::new();
    m.open();
    m.selected_item_index = 3; // Close
    m.jump_to_prev_section();
    assert_eq!(m.selected_item_index, 0); // New
}

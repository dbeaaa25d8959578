use ue::dropdown::{dropdown_layout, DropdownLayout};
use ue::menu::MenuBar;

#[test]
fn file_menu_sits_after_the_gutter() {
    let bar = MenuBar::new();
    let l = dropdown_layout(&bar, 3);
    assert_eq!(l, DropdownLayout { x: 5, width: 17, files_start: 0, files_end: 0, show_scrollbar: false });
}

#[test]
fn later_menus_move_right_by_earlier_titles() {
    let mut bar = MenuBar::new();
    bar.selected_menu_index = 1;
    bar.selected_item_index = 0;
    let l = dropdown_layout(&bar, 3);
    assert_eq!(l.x, 11);
    assert_eq!(l.width, 13);
}

#[test]
fn file_section_scrolls_with_a_full_last_page() {
    let mut bar = MenuBar::new();
    let labels: Vec<String> = (0..7).map(|i| format!("f{}", i)).collect();
    bar.update_file_menu(labels);
    bar.file_section_scroll_offset = 4;
    let l = dropdown_layout(&bar, 0);
    assert_eq!((l.files_start, l.files_end, l.show_scrollbar), (2, 7, true));
    bar.file_section_scroll_offset = 1;
    let l = dropdown_layout(&bar, 0);
    assert_eq!((l.files_start, l.files_end, l.show_scrollbar), (1, 6, true));
}

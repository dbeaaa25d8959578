//! Where the open dropdown menu is drawn: its column and width, and which
//! recent files of the File menu are shown.
use vstd::prelude::*;
use crate::menu::{count_files_in_menu, files_in, Menu, MenuBar, MenuItem, FILE_MENU_INDEX, FILE_SECTION_START_IDX};

verus! {

/// Placement of the open dropdown.
#[derive(Debug, Clone, Copy, PartialEq, Eq, Structural)]
pub struct DropdownLayout {
    /// Screen column of the dropdown's left edge.
    pub x: usize,
    /// Width of the dropdown in columns.
    pub width: usize,
    /// Recent files shown (File menu only): from this index of the file
    /// section ...
    pub files_start: usize,
    /// ... up to (not including) this one.
    pub files_end: usize,
    /// Whether the file section gets a scrollbar.
    pub show_scrollbar: bool,
}

/// Length of a label in bytes.
pub open spec fn label_len(s: Seq<char>) -> int {
    vstd::utf8::encode_utf8(s).len() as int
}

/// Column of menu `k`'s title (and dropdown): after the line-number gutter
/// and two spaces, each earlier title takes its length plus two.
pub open spec fn menu_x(menus: Seq<Menu>, k: int, gutter: int) -> int
    decreases k,
{
    if k <= 0 {
        gutter + 2
    } else {
        menu_x(menus, k - 1, gutter) + label_len(menus[k - 1].label@) + 2
    }
}

/// Columns an item needs: its label plus four, or three for a separator.
pub open spec fn item_width(item: MenuItem) -> int {
    match item {
        MenuItem::Action { label, .. } => label_len(label@) + 4,
        MenuItem::Checkable { label, .. } => label_len(label@) + 4,
        MenuItem::Separator => 3,
    }
}

/// The largest of `init` and the widths of the first `k` items.
pub open spec fn widest(items: Seq<MenuItem>, k: int, init: int) -> int
    decreases k,
{
    if k <= 0 {
        init
    } else {
        let w = widest(items, k - 1, init);
        if item_width(items[k - 1]) > w { item_width(items[k - 1]) } else { w }
    }
}

/// Width of a menu's dropdown: the widest of its title and items, plus four.
pub open spec fn dropdown_width(menu: Menu) -> int {
    widest(menu.items@, menu.items@.len() as int, label_len(menu.label@)) + 4
}

/// The layout of the open dropdown of `bar` beside a gutter `gutter`
/// columns wide.  For the File menu, the shown files start at the scroll
/// offset, pulled back so that a full page is shown when there are enough,
/// and there is a scrollbar when not all files fit.
pub open spec fn layout_of(bar: MenuBar, gutter: int) -> DropdownLayout {
    let k = bar.selected_menu_index as int;
    let menu = bar.menus@[k];
    let total = files_in(menu.items@, FILE_SECTION_START_IDX as int);
    let max = bar.max_visible_files as int;
    let scroll = bar.file_section_scroll_offset as int;
    let limit = if total >= max { total - max } else { 0 };
    let start = if scroll <= limit { scroll } else { limit };
    let shown = if max <= total { max } else { total };
    let end = if start + shown <= total { start + shown } else { total };
    let file_menu = k == FILE_MENU_INDEX && total > 0;
    DropdownLayout {
        x: menu_x(bar.menus@, k, gutter) as usize,
        width: dropdown_width(menu) as usize,
        files_start: if file_menu { start as usize } else { 0 },
        files_end: if file_menu { end as usize } else { 0 },
        show_scrollbar: k == FILE_MENU_INDEX && total > max,
    }
}

/// `menu_x` grows with `k`.
proof fn lemma_menu_x_grows(menus: Seq<Menu>, i: int, k: int, gutter: int)
    requires
        0 <= i <= k,
    ensures
        menu_x(menus, i, gutter) <= menu_x(menus, k, gutter),
    decreases k - i,
{
    if i < k {
        lemma_menu_x_grows(menus, i, k - 1, gutter);
    }
}

/// `widest` grows with `k` and is at least `init`.
proof fn lemma_widest_grows(items: Seq<MenuItem>, i: int, k: int, init: int)
    requires
        0 <= i <= k,
    ensures
        init <= widest(items, i, init) <= widest(items, k, init),
    decreases k - i, i,
{
    if i < k {
        lemma_widest_grows(items, i, k - 1, init);
    } else if i > 0 {
        lemma_widest_grows(items, i - 1, i - 1, init);
    }
}

/// Width an item needs (see `item_width`).
fn width_of_item(item: &MenuItem, bound: Ghost<int>) -> (w: usize)
    requires
        item_width(*item) <= bound@ <= usize::MAX,
    ensures
        w == item_width(*item),
{
    match item {
        MenuItem::Action { label, .. } => label.as_str().len() + 4,
        MenuItem::Checkable { label, .. } => label.as_str().len() + 4,
        MenuItem::Separator => 3,
    }
}

/// Place the open dropdown of `bar` beside a line-number gutter `gutter`
/// columns wide (see `layout_of`).
pub fn dropdown_layout(bar: &MenuBar, gutter: usize) -> (r: DropdownLayout)
    requires
        bar.selected_menu_index < bar.menus@.len(),
        menu_x(bar.menus@, bar.selected_menu_index as int, gutter as int) <= usize::MAX,
        dropdown_width(bar.menus@[bar.selected_menu_index as int]) <= usize::MAX,
    ensures
        r == layout_of(*bar, gutter as int),
{
    let k = bar.selected_menu_index;
    let ghost menus = bar.menus@;
    proof {
        lemma_menu_x_grows(menus, 0, k as int, gutter as int);
    }
    let mut x: usize = gutter + 2;
    let mut i: usize = 0;
    while i < k
        invariant
            k == bar.selected_menu_index,
            k < bar.menus@.len(),
            menus == bar.menus@,
            i <= k,
            x == menu_x(menus, i as int, gutter as int),
            menu_x(menus, k as int, gutter as int) <= usize::MAX,
        decreases k - i,
    {
        proof {
            lemma_menu_x_grows(menus, i + 1, k as int, gutter as int);
        }
        x = x + bar.menus[i].label.as_str().len() + 2;
        i = i + 1;
    }
    let menu = &bar.menus[k];
    let ghost items = menu.items@;
    let ghost init = label_len(menu.label@);
    let ghost top = widest(items, items.len() as int, init);
    proof {
        lemma_widest_grows(items, 0, items.len() as int, init);
    }
    let mut w: usize = menu.label.as_str().len();
    let mut j: usize = 0;
    while j < menu.items.len()
        invariant
            items == menu.items@,
            init == label_len(menu.label@),
            top == widest(items, items.len() as int, init),
            top + 4 <= usize::MAX,
            j <= items.len(),
            w == widest(items, j as int, init),
        decreases items.len() - j,
    {
        proof {
            lemma_widest_grows(items, j + 1, items.len() as int, init);
        }
        let iw = width_of_item(&menu.items[j], Ghost(top));
        if iw > w {
            w = iw;
        }
        j = j + 1;
    }
    let width = w + 4;
    let total = count_files_in_menu(menu);
    let max = bar.max_visible_files;
    let limit = if total >= max { total - max } else { 0 };
    let scroll = bar.file_section_scroll_offset;
    let start = if scroll <= limit { scroll } else { limit };
    let shown = if max <= total { max } else { total };
    let end = if shown <= total - start { start + shown } else { total };
    let file_menu = k == FILE_MENU_INDEX && total > 0;
    DropdownLayout {
        x,
        width,
        files_start: if file_menu { start } else { 0 },
        files_end: if file_menu { end } else { 0 },
        show_scrollbar: k == FILE_MENU_INDEX && total > max,
    }
}

} // verus!

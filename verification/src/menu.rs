//! The menu bar: menus, their items, and keyboard and mouse navigation.
use vstd::prelude::*;
use crate::keys::{KeyCode, KeyEvent};
use crate::text::{lowercase_first, lowercase_of};

verus! {

/// Index of the File menu.
pub const FILE_MENU_INDEX: usize = 0;

/// Index of the first recent file in the File menu (after New, Open, Save,
/// Close, Close all and a separator).
pub const FILE_SECTION_START_IDX: usize = 6;

/// Actions that menu items trigger.
#[derive(Debug, Clone, Copy, PartialEq, Eq, Structural)]
pub enum MenuAction {
    FileNew,
    FileOpenDialog,
    /// Open the recent file with this index.
    FileOpenRecent(usize),
    FileSave,
    FileClose,
    FileCloseAll,
    FileQuit,
    EditUndo,
    EditRedo,
    EditCopy,
    EditCut,
    EditPaste,
    EditFind,
    ViewLineWrap,
    HelpEditor,
    HelpFind,
    HelpAbout,
    /// Remove the recent file with this index from the list.
    FileRemove(usize),
}

/// One entry of a menu.
#[derive(Debug, Clone, PartialEq)]
pub enum MenuItem {
    Action { label: String, action: MenuAction },
    Checkable { label: String, action: MenuAction, checked: bool },
    Separator,
}

/// A top-level menu.
#[derive(Debug, Clone)]
pub struct Menu {
    pub label: String,
    pub items: Vec<MenuItem>,
    /// Letter that opens the menu with Alt.
    pub hotkey: char,
}

impl Menu {
    /// A menu with the given label, hotkey and items.
    pub fn new(label: &str, hotkey: char, items: Vec<MenuItem>) -> (m: Self)
        ensures
            m.label@ == label@,
            m.hotkey == hotkey,
            m.items == items,
    {
        Menu { label: String::from_str(label), items, hotkey }
    }
}

/// An action item.
pub fn action(label: &str, act: MenuAction) -> (item: MenuItem)
    ensures
        item matches MenuItem::Action { label: l, action: a } && l@ == label@ && a == act,
{
    MenuItem::Action { label: String::from_str(label), action: act }
}

/// A checkable item.
pub fn checkable(label: &str, act: MenuAction, checked: bool) -> (item: MenuItem)
    ensures
        item matches MenuItem::Checkable { label: l, action: a, checked: c } && l@ == label@ && a == act
            && c == checked,
{
    MenuItem::Checkable { label: String::from_str(label), action: act, checked }
}

/// Whether an item is a separator.
pub open spec fn is_sep(item: MenuItem) -> bool {
    item is Separator
}

/// Whether an item is a separator.
pub fn is_separator(item: &MenuItem) -> (b: bool)
    ensures
        b == is_sep(*item),
{
    match item {
        MenuItem::Separator => true,
        _ => false,
    }
}

/// Whether an item opens a recent file.
pub open spec fn is_file_item(item: MenuItem) -> bool {
    item matches MenuItem::Action { action: MenuAction::FileOpenRecent(_), .. }
}

/// Recent-file items from index `from` on, up to the first item that is not
/// one (a separator, or Quit when no files are listed).
pub open spec fn files_in(items: Seq<MenuItem>, from: int) -> int
    decreases items.len() - from,
{
    if from >= items.len() || from < 0 {
        0
    } else if is_file_item(items[from]) {
        1 + files_in(items, from + 1)
    } else {
        0
    }
}

/// Number of recent files listed in the File menu.
pub fn count_files_in_menu(menu: &Menu) -> (r: usize)
    ensures
        r == files_in(menu.items@, FILE_SECTION_START_IDX as int),
{
    let mut count: usize = 0;
    let mut idx: usize = FILE_SECTION_START_IDX;
    if idx >= menu.items.len() {
        return 0;
    }
    while idx < menu.items.len()
        invariant
            FILE_SECTION_START_IDX <= idx <= menu.items@.len(),
            count <= idx - FILE_SECTION_START_IDX,
            count + files_in(menu.items@, idx as int) == files_in(menu.items@, FILE_SECTION_START_IDX as int),
        decreases menu.items@.len() - idx,
    {
        match &menu.items[idx] {
            MenuItem::Action { action: MenuAction::FileOpenRecent(_), .. } => {
                count = count + 1;
            },
            _ => {
                return count;
            },
        }
        idx = idx + 1;
    }
    count
}

/// Position reached from `start` after `k` steps through `len` items,
/// wrapping around (valid for `0 <= k <= len`).
pub open spec fn cyc(start: int, k: int, len: int, forward: bool) -> int {
    if forward {
        if start + k < len { start + k } else { start + k - len }
    } else {
        if start >= k { start - k } else { start - k + len }
    }
}

/// First non-separator met when walking from `start` (inclusive), after `k`
/// steps already taken; `start` itself when every item is a separator.
pub open spec fn scan_items(items: Seq<MenuItem>, start: int, k: int, forward: bool) -> int
    decreases items.len() - k,
{
    if k >= items.len() {
        start
    } else if !is_sep(items[cyc(start, k, items.len() as int, forward)]) {
        cyc(start, k, items.len() as int, forward)
    } else {
        scan_items(items, start, k + 1, forward)
    }
}

/// Item selected by moving one step from `current` in the given direction,
/// skipping separators (wrapping around the menu).
pub open spec fn next_non_separator(items: Seq<MenuItem>, current: int, forward: bool) -> int {
    scan_items(items, cyc(current, 1, items.len() as int, forward), 0, forward)
}

/// Recent files in the File menu: (count, index just past the file section).
pub open spec fn file_section(items: Seq<MenuItem>) -> (int, int) {
    let end = first_sep_from(items, FILE_SECTION_START_IDX as int);
    let count = end - FILE_SECTION_START_IDX;
    if count <= 0 {
        (0, FILE_SECTION_START_IDX as int)
    } else {
        (count, end)
    }
}

/// Index of the first separator at or after `from` (`items.len()` if none).
pub open spec fn first_sep_from(items: Seq<MenuItem>, from: int) -> int
    decreases items.len() - from,
{
    if from >= items.len() {
        items.len() as int
    } else if is_sep(items[from]) {
        from
    } else {
        first_sep_from(items, from + 1)
    }
}

/// Menu bar state.
#[derive(Debug)]
pub struct MenuBar {
    pub menus: Vec<Menu>,
    pub active: bool,
    /// Whether the dropdown of the selected menu is shown.
    pub dropdown_open: bool,
    pub selected_menu_index: usize,
    pub selected_item_index: usize,
    /// Scroll offset within the file section of the File menu.
    pub file_section_scroll_offset: usize,
    pub needs_redraw: bool,
    /// Most recent files shown at once in the File menu.
    pub max_visible_files: usize,
}

impl MenuBar {
    /// Menus exist, every menu has items, and the selection points at an
    /// item of an existing menu.
    pub open spec fn wf(&self) -> bool {
        &&& self.menus@.len() > 0
        &&& forall|m: int| 0 <= m < self.menus@.len() ==> (#[trigger] self.menus@[m]).items@.len() > 0
        &&& self.selected_menu_index < self.menus@.len()
        &&& self.selected_item_index < self.menus@[self.selected_menu_index as int].items@.len()
        &&& self.file_section_scroll_offset + self.max_visible_files <= usize::MAX
    }

    /// Items of the selected menu.
    pub open spec fn current_items(&self) -> Seq<MenuItem> {
        self.menus@[self.selected_menu_index as int].items@
    }

    /// The menu bar: File (New, Open..., Save, Close, Close all, separator,
    /// Quit), Edit (Undo, Redo, separator, Copy, Cut, Paste, separator,
    /// Find), View (Line Wrap, unchecked) and Help (Editor Help, Find Help,
    /// separator, About); closed, first item of the first menu selected.
    pub fn new() -> (m: Self)
        ensures
            m.wf(),
            m.menus@.len() == 4,
            m.menus@[0].label@ == "File"@ && m.menus@[0].hotkey == 'f' && m.menus@[0].items@.len() == 7,
            m.menus@[1].label@ == "Edit"@ && m.menus@[1].hotkey == 'e' && m.menus@[1].items@.len() == 8,
            m.menus@[2].label@ == "View"@ && m.menus@[2].hotkey == 'v' && m.menus@[2].items@.len() == 1,
            m.menus@[3].label@ == "Help"@ && m.menus@[3].hotkey == ' ' && m.menus@[3].items@.len() == 4,
            m.menus@[0].items@[0] matches MenuItem::Action { action: MenuAction::FileNew, .. },
            m.menus@[0].items@[1] matches MenuItem::Action { action: MenuAction::FileOpenDialog, .. },
            m.menus@[0].items@[2] matches MenuItem::Action { action: MenuAction::FileSave, .. },
            m.menus@[0].items@[3] matches MenuItem::Action { action: MenuAction::FileClose, .. },
            m.menus@[0].items@[4] matches MenuItem::Action { action: MenuAction::FileCloseAll, .. },
            is_sep(m.menus@[0].items@[5]),
            m.menus@[0].items@[6] matches MenuItem::Action { action: MenuAction::FileQuit, .. },
            m.menus@[1].items@[0] matches MenuItem::Action { action: MenuAction::EditUndo, .. },
            m.menus@[1].items@[1] matches MenuItem::Action { action: MenuAction::EditRedo, .. },
            is_sep(m.menus@[1].items@[2]),
            m.menus@[1].items@[3] matches MenuItem::Action { action: MenuAction::EditCopy, .. },
            m.menus@[1].items@[4] matches MenuItem::Action { action: MenuAction::EditCut, .. },
            m.menus@[1].items@[5] matches MenuItem::Action { action: MenuAction::EditPaste, .. },
            is_sep(m.menus@[1].items@[6]),
            m.menus@[1].items@[7] matches MenuItem::Action { action: MenuAction::EditFind, .. },
            m.menus@[2].items@[0] matches MenuItem::Checkable { action: MenuAction::ViewLineWrap, checked: false, .. },
            m.menus@[3].items@[0] matches MenuItem::Action { action: MenuAction::HelpEditor, .. },
            m.menus@[3].items@[1] matches MenuItem::Action { action: MenuAction::HelpFind, .. },
            is_sep(m.menus@[3].items@[2]),
            m.menus@[3].items@[3] matches MenuItem::Action { action: MenuAction::HelpAbout, .. },
            !m.active && !m.dropdown_open,
            m.selected_menu_index == 0 && m.selected_item_index == 0,
            m.file_section_scroll_offset == 0,
            !m.needs_redraw,
            m.max_visible_files == 5,
    {
        let mut file_items: Vec<MenuItem> = Vec::new();
        file_items.push(action("New", MenuAction::FileNew));
        file_items.push(action("Open...", MenuAction::FileOpenDialog));
        file_items.push(action("Save", MenuAction::FileSave));
        file_items.push(action("Close", MenuAction::FileClose));
        file_items.push(action("Close all", MenuAction::FileCloseAll));
        file_items.push(MenuItem::Separator);
        file_items.push(action("Quit", MenuAction::FileQuit));
        let mut edit_items: Vec<MenuItem> = Vec::new();
        edit_items.push(action("Undo", MenuAction::EditUndo));
        edit_items.push(action("Redo", MenuAction::EditRedo));
        edit_items.push(MenuItem::Separator);
        edit_items.push(action("Copy", MenuAction::EditCopy));
        edit_items.push(action("Cut", MenuAction::EditCut));
        edit_items.push(action("Paste", MenuAction::EditPaste));
        edit_items.push(MenuItem::Separator);
        edit_items.push(action("Find", MenuAction::EditFind));
        let mut view_items: Vec<MenuItem> = Vec::new();
        view_items.push(checkable("Line Wrap", MenuAction::ViewLineWrap, false));
        let mut help_items: Vec<MenuItem> = Vec::new();
        help_items.push(action("Editor Help", MenuAction::HelpEditor));
        help_items.push(action("Find Help", MenuAction::HelpFind));
        help_items.push(MenuItem::Separator);
        help_items.push(action("About", MenuAction::HelpAbout));
        let mut menus: Vec<Menu> = Vec::new();
        menus.push(Menu::new("File", 'f', file_items));
        menus.push(Menu::new("Edit", 'e', edit_items));
        menus.push(Menu::new("View", 'v', view_items));
        menus.push(Menu::new("Help", ' ', help_items));
        MenuBar {
            menus,
            active: false,
            dropdown_open: false,
            selected_menu_index: 0,
            selected_item_index: 0,
            file_section_scroll_offset: 0,
            needs_redraw: false,
            max_visible_files: 5,
        }
    }

    /// Activate the menu bar on the first menu (dropdown closed).
    pub fn open(&mut self)
        ensures
            *final(self) == (MenuBar {
                active: true,
                dropdown_open: false,
                selected_menu_index: 0,
                selected_item_index: 0,
                needs_redraw: true,
                ..*old(self)
            }),
    {
        self.active = true;
        self.dropdown_open = false;
        self.selected_menu_index = 0;
        self.selected_item_index = 0;
        self.needs_redraw = true;
    }

    /// Open the dropdown of the selected menu, selecting its first item.
    pub fn open_dropdown(&mut self)
        ensures
            *final(self) == (MenuBar {
                dropdown_open: true,
                selected_item_index: 0,
                file_section_scroll_offset: 0,
                needs_redraw: true,
                ..*old(self)
            }),
    {
        self.dropdown_open = true;
        self.selected_item_index = 0;
        self.file_section_scroll_offset = 0;
        self.needs_redraw = true;
    }

    /// Close the dropdown but keep the menu bar active.
    pub fn close_dropdown(&mut self)
        ensures
            *final(self) == (MenuBar {
                dropdown_open: false,
                file_section_scroll_offset: 0,
                needs_redraw: true,
                ..*old(self)
            }),
    {
        self.dropdown_open = false;
        self.file_section_scroll_offset = 0;
        self.needs_redraw = true;
    }

    /// Close the menu bar.
    pub fn close(&mut self)
        ensures
            *final(self) == (MenuBar {
                active: false,
                dropdown_open: false,
                file_section_scroll_offset: 0,
                needs_redraw: true,
                ..*old(self)
            }),
    {
        self.active = false;
        self.dropdown_open = false;
        self.file_section_scroll_offset = 0;
        self.needs_redraw = true;
    }

    /// Select the next menu (wrapping to the first).
    pub fn next_menu(&mut self)
        requires
            old(self).wf(),
        ensures
            final(self).wf(),
            *final(self) == (MenuBar {
                selected_menu_index: ((old(self).selected_menu_index + 1) % (old(self).menus@.len() as int)) as usize,
                selected_item_index: 0,
                file_section_scroll_offset: 0,
                needs_redraw: true,
                ..*old(self)
            }),
    {
        let len = self.menus.len();
        let n = (self.selected_menu_index + 1) % len;
        self.switch_menu(n);
    }

    /// Select the previous menu (wrapping to the last).
    pub fn prev_menu(&mut self)
        requires
            old(self).wf(),
        ensures
            final(self).wf(),
            *final(self) == (MenuBar {
                selected_menu_index: if old(self).selected_menu_index == 0 {
                    (old(self).menus@.len() - 1) as usize
                } else {
                    (old(self).selected_menu_index - 1) as usize
                },
                selected_item_index: 0,
                file_section_scroll_offset: 0,
                needs_redraw: true,
                ..*old(self)
            }),
    {
        let new_index = if self.selected_menu_index == 0 {
            self.menus.len() - 1
        } else {
            self.selected_menu_index - 1
        };
        self.switch_menu(new_index);
    }

    /// Select menu `new_index` and its first item, keeping the dropdown
    /// state.
    pub fn switch_menu(&mut self, new_index: usize)
        requires
            old(self).wf(),
            new_index < old(self).menus@.len(),
        ensures
            final(self).wf(),
            *final(self) == (MenuBar {
                selected_menu_index: new_index,
                selected_item_index: 0,
                file_section_scroll_offset: 0,
                needs_redraw: true,
                ..*old(self)
            }),
    {
        let was_dropdown_open = self.dropdown_open;
        self.selected_menu_index = new_index;
        self.selected_item_index = 0;
        self.file_section_scroll_offset = 0;
        self.dropdown_open = was_dropdown_open;
        self.needs_redraw = true;
        assert(self.menus@[new_index as int].items@.len() > 0);
    }

    /// Index of the next (or previous) item after `current` that is not a
    /// separator, wrapping around; see `next_non_separator`.
    pub fn find_next_non_separator(&self, current: usize, len: usize, forward: bool) -> (r: usize)
        requires
            self.wf(),
            len == self.current_items().len(),
            current < len,
        ensures
            r == next_non_separator(self.current_items(), current as int, forward),
            r < len,
    {
        let menu = &self.menus[self.selected_menu_index];
        let ghost items = menu.items@;
        let mut next = if forward {
            if current + 1 < len { current + 1 } else { 0 }
        } else if current == 0 {
            len - 1
        } else {
            current - 1
        };
        let start = next;
        let ghost mut k: int = 0;
        assert(next == cyc(start as int, 0, len as int, forward));
        while is_separator(&menu.items[next])
            invariant
                items == menu.items@,
                items == self.current_items(),
                len == items.len(),
                0 <= start < len,
                start == cyc(current as int, 1, len as int, forward),
                0 <= k < len,
                next == cyc(start as int, k, len as int, forward),
                scan_items(items, start as int, 0, forward) == scan_items(items, start as int, k, forward),
            decreases len - k,
        {
            next = if forward {
                if next + 1 < len { next + 1 } else { 0 }
            } else if next == 0 {
                len - 1
            } else {
                next - 1
            };
            proof {
                assert(scan_items(items, start as int, k, forward) == scan_items(items, start as int, k + 1, forward));
                k = k + 1;
            }
            assert(next == cyc(start as int, k, len as int, forward));
            if next == start {
                assert(k == len);
                assert(scan_items(items, start as int, k, forward) == start);
                return next;
            }
        }
        next
    }

    /// Select the next item of the open menu, skipping separators.
    pub fn next_item(&mut self)
        requires
            old(self).wf(),
        ensures
            final(self).wf(),
            final(self).selected_item_index == next_non_separator(old(self).current_items(), old(self).selected_item_index as int, true),
            final(self).menus == old(self).menus,
            final(self).selected_menu_index == old(self).selected_menu_index,
            final(self).active == old(self).active && final(self).dropdown_open == old(self).dropdown_open,
            final(self).needs_redraw,
            final(self).file_section_scroll_offset == scroll_for_selection(
                *old(self),
                final(self).selected_item_index as int,
            ),
    {
        let len = self.menus[self.selected_menu_index].items.len();
        self.selected_item_index = self.find_next_non_separator(self.selected_item_index, len, true);
        self.ensure_selected_visible();
        self.needs_redraw = true;
    }

    /// Select the previous item of the open menu, skipping separators.
    pub fn prev_item(&mut self)
        requires
            old(self).wf(),
        ensures
            final(self).wf(),
            final(self).selected_item_index == next_non_separator(old(self).current_items(), old(self).selected_item_index as int, false),
            final(self).menus == old(self).menus,
            final(self).selected_menu_index == old(self).selected_menu_index,
            final(self).active == old(self).active && final(self).dropdown_open == old(self).dropdown_open,
            final(self).needs_redraw,
            final(self).file_section_scroll_offset == scroll_for_selection(
                *old(self),
                final(self).selected_item_index as int,
            ),
    {
        let len = self.menus[self.selected_menu_index].items.len();
        self.selected_item_index = self.find_next_non_separator(self.selected_item_index, len, false);
        self.ensure_selected_visible();
        self.needs_redraw = true;
    }

    /// Keep the selected recent file inside the visible part of the File
    /// menu's file section (see `scroll_for_selection`).
    pub fn ensure_selected_visible(&mut self)
        requires
            old(self).wf(),
        ensures
            *final(self) == (MenuBar {
                file_section_scroll_offset: scroll_for_selection(*old(self), old(self).selected_item_index as int) as usize,
                ..*old(self)
            }),
    {
        if self.selected_menu_index != FILE_MENU_INDEX || self.selected_item_index < FILE_SECTION_START_IDX {
            return;
        }
        let (file_count, file_end_idx) = self.get_file_section_bounds();
        if self.selected_item_index >= file_end_idx {
            return;
        }
        if file_count <= self.max_visible_files {
            self.file_section_scroll_offset = 0;
            return;
        }
        let file_idx = self.selected_item_index - FILE_SECTION_START_IDX;
        let mut offset = self.file_section_scroll_offset;
        if file_idx < offset {
            offset = file_idx;
        }
        if file_idx >= offset + self.max_visible_files {
            offset = file_idx - self.max_visible_files + 1;
        }
        self.file_section_scroll_offset = offset;
    }

    /// Recent files in the File menu: (count, index just past them).
    pub fn get_file_section_bounds(&self) -> (r: (usize, usize))
        requires
            self.wf(),
        ensures
            (r.0 as int, r.1 as int) == file_section(self.menus@[FILE_MENU_INDEX as int].items@),
    {
        let menu = &self.menus[FILE_MENU_INDEX];
        let ghost items = menu.items@;
        let mut idx: usize = FILE_SECTION_START_IDX;
        if idx >= menu.items.len() {
            return (0, FILE_SECTION_START_IDX);
        }
        while idx < menu.items.len() && !is_separator(&menu.items[idx])
            invariant
                items == menu.items@,
                FILE_SECTION_START_IDX <= idx <= items.len(),
                first_sep_from(items, FILE_SECTION_START_IDX as int) == first_sep_from(items, idx as int),
            decreases items.len() - idx,
        {
            idx = idx + 1;
        }
        let file_count = idx - FILE_SECTION_START_IDX;
        if file_count == 0 {
            (0, FILE_SECTION_START_IDX)
        } else {
            (file_count, idx)
        }
    }

    /// Action of the selected item (`None` on a separator).
    pub fn get_selected_action(&self) -> (r: Option<MenuAction>)
        requires
            self.wf(),
        ensures
            r == item_action(self.current_items()[self.selected_item_index as int]),
    {
        let menu = &self.menus[self.selected_menu_index];
        match &menu.items[self.selected_item_index] {
            MenuItem::Action { action, .. } => Some(*action),
            MenuItem::Checkable { action, .. } => Some(*action),
            MenuItem::Separator => None,
        }
    }

    /// Set the checked state of every checkable item with the given action.
    pub fn update_checkable(&mut self, action: MenuAction, checked: bool)
        requires
            old(self).wf(),
        ensures
            final(self).wf(),
            final(self).menus@.len() == old(self).menus@.len(),
            forall|m: int| 0 <= m < final(self).menus@.len() ==> {
                let a = old(self).menus@[m];
                let b = #[trigger] final(self).menus@[m];
                &&& b.label == a.label && b.hotkey == a.hotkey
                &&& b.items@.len() == a.items@.len()
                &&& forall|i: int| 0 <= i < b.items@.len() ==> #[trigger] b.items@[i] == with_checked(a.items@[i], action, checked)
            },
            final(self).active == old(self).active && final(self).dropdown_open == old(self).dropdown_open,
            final(self).selected_menu_index == old(self).selected_menu_index,
            final(self).selected_item_index == old(self).selected_item_index,
            final(self).file_section_scroll_offset == old(self).file_section_scroll_offset,
            final(self).needs_redraw == old(self).needs_redraw,
            final(self).max_visible_files == old(self).max_visible_files,
    {
        let ghost old_menus = self.menus@;
        let mut new_menus: Vec<Menu> = Vec::new();
        let mut m: usize = 0;
        let n = self.menus.len();
        while m < n
            invariant
                n == self.menus@.len(),
                self.menus@ == old_menus,
                m <= n,
                new_menus@.len() == m,
                forall|j: int| 0 <= j < m ==> {
                    let a = old_menus[j];
                    let b = #[trigger] new_menus@[j];
                    &&& b.label == a.label && b.hotkey == a.hotkey
                    &&& b.items@.len() == a.items@.len()
                    &&& forall|i: int| 0 <= i < b.items@.len() ==> #[trigger] b.items@[i] == with_checked(a.items@[i], action, checked)
                },
            decreases n - m,
        {
            let menu = &self.menus[m];
            let mut items: Vec<MenuItem> = Vec::new();
            let mut i: usize = 0;
            while i < menu.items.len()
                invariant
                    i <= menu.items@.len(),
                    items@.len() == i,
                    forall|k: int| 0 <= k < i ==> #[trigger] items@[k] == with_checked(menu.items@[k], action, checked),
                decreases menu.items@.len() - i,
            {
                let item = match &menu.items[i] {
                    MenuItem::Checkable { label, action: item_action, checked: item_checked } => {
                        let c = if *item_action == action { checked } else { *item_checked };
                        MenuItem::Checkable { label: label.clone(), action: *item_action, checked: c }
                    },
                    MenuItem::Action { label, action: a } => MenuItem::Action { label: label.clone(), action: *a },
                    MenuItem::Separator => MenuItem::Separator,
                };
                items.push(item);
                i = i + 1;
            }
            new_menus.push(Menu { label: menu.label.clone(), items, hotkey: menu.hotkey });
            m = m + 1;
        }
        self.menus = new_menus;
        assert forall|mm: int| 0 <= mm < self.menus@.len() implies (#[trigger] self.menus@[mm]).items@.len() > 0 by {
            assert(old_menus[mm].items@.len() > 0);
        }
    }

    /// Set how many recent files the File menu shows at once.
    pub fn update_max_visible_files(&mut self, max_visible_files: usize)
        ensures
            *final(self) == (MenuBar { max_visible_files, ..*old(self) }),
    {
        self.max_visible_files = max_visible_files;
    }

    /// Replace the File menu with one listing the given recent-file labels.
    pub fn update_file_menu(&mut self, file_labels: Vec<String>)
        requires
            old(self).wf(),
        ensures
            final(self).menus@.len() == old(self).menus@.len(),
            final(self).menus@[0].label@ == "File"@,
            final(self).menus@[0].hotkey == 'f',
            file_menu_items(final(self).menus@[0].items@, file_labels@),
            forall|m: int| 1 <= m < old(self).menus@.len() ==> final(self).menus@[m] == old(self).menus@[m],
            final(self).needs_redraw,
            final(self).active == old(self).active && final(self).dropdown_open == old(self).dropdown_open,
            final(self).selected_menu_index == old(self).selected_menu_index,
            final(self).selected_item_index == old(self).selected_item_index,
    {
        let items = Self::build_file_menu_items(file_labels, false);
        self.menus.set(0, Menu::new("File", 'f', items));
        self.needs_redraw = true;
    }

    /// File menu items: New, Open..., Save, Close, Close all, then (when
    /// there are recent files) a separator and one `FileOpenRecent(i)` item
    /// per label, then a separator and Quit.
    pub fn build_file_menu_items(file_labels: Vec<String>, _show_more: bool) -> (items: Vec<MenuItem>)
        ensures
            file_menu_items(items@, file_labels@),
    {
        let mut items: Vec<MenuItem> = Vec::new();
        items.push(action("New", MenuAction::FileNew));
        items.push(action("Open...", MenuAction::FileOpenDialog));
        items.push(action("Save", MenuAction::FileSave));
        items.push(action("Close", MenuAction::FileClose));
        items.push(action("Close all", MenuAction::FileCloseAll));
        let base: usize = 6;
        if file_labels.len() > 0 {
            items.push(MenuItem::Separator);
            let mut idx: usize = 0;
            while idx < file_labels.len()
                invariant
                    idx <= file_labels@.len(),
                    items@.len() == 6 + idx,
                    file_labels@.len() > 0,
                    file_menu_head(items@),
                    is_sep(items@[5]),
                    forall|k: int| 0 <= k < idx ==> recent_item(#[trigger] items@[6 + k], file_labels@[k], k),
                decreases file_labels@.len() - idx,
            {
                items.push(action(file_labels[idx].as_str(), MenuAction::FileOpenRecent(idx)));
                idx = idx + 1;
            }
        }
        items.push(MenuItem::Separator);
        items.push(action("Quit", MenuAction::FileQuit));
        let _ = base;
        items
    }

    /// Activate the menu whose hotkey is the lower-case form of `key`.
    pub fn try_activate_by_hotkey(&mut self, key: char) -> (found: bool)
        requires
            old(self).wf(),
        ensures
            final(self).wf(),
            found == exists|i: int| 0 <= i < old(self).menus@.len() && old(self).menus@[i].hotkey == lowercase_of(key),
            found ==> {
                let i = final(self).selected_menu_index as int;
                &&& old(self).menus@[i].hotkey == lowercase_of(key)
                &&& forall|j: int| 0 <= j < i ==> old(self).menus@[j].hotkey != lowercase_of(key)
                &&& *final(self) == (MenuBar {
                    active: true,
                    selected_menu_index: final(self).selected_menu_index,
                    selected_item_index: 0,
                    ..*old(self)
                })
            },
            !found ==> *final(self) == *old(self),
    {
        let key_lower = lowercase_first(key);
        let mut idx: usize = 0;
        while idx < self.menus.len()
            invariant
                idx <= self.menus@.len(),
                self.wf(),
                *self == *old(self),
                key_lower == lowercase_of(key),
                forall|j: int| 0 <= j < idx ==> self.menus@[j].hotkey != key_lower,
            decreases self.menus@.len() - idx,
        {
            if self.menus[idx].hotkey == key_lower {
                self.active = true;
                self.selected_menu_index = idx;
                self.selected_item_index = 0;
                assert(self.menus@[idx as int].items@.len() > 0);
                return true;
            }
            idx = idx + 1;
        }
        false
    }

    /// The first item from `i` on that is not a separator (0 when there is
    /// none).
    pub open spec fn first_non_sep(items: Seq<MenuItem>, i: int) -> int
        decreases items.len() - i,
    {
        if i < 0 || i >= items.len() {
            0
        } else if !is_sep(items[i]) {
            i
        } else {
            Self::first_non_sep(items, i + 1)
        }
    }

    /// Ctrl+Up: select the last item of the previous section (the item just
    /// above the nearest separator above the selection, skipping runs of
    /// separators); in the first section, stay at its first item that is not
    /// a separator.
    pub fn jump_to_prev_section(&mut self)
        requires
            old(self).wf(),
        ensures
            final(self).wf(),
            final(self).menus == old(self).menus,
            final(self).selected_menu_index == old(self).selected_menu_index,
            final(self).active == old(self).active && final(self).dropdown_open == old(self).dropdown_open,
            ({
                let items = old(self).current_items();
                let cur = old(self).selected_item_index as int;
                let t = prev_section_target(items, cur);
                if t == stay() {
                    *final(self) == *old(self)
                } else if t == first_item() {
                    final(self).selected_item_index == Self::first_non_sep(items, 0)
                        && final(self).needs_redraw
                        && final(self).file_section_scroll_offset == old(self).file_section_scroll_offset
                } else {
                    final(self).selected_item_index == t && final(self).needs_redraw
                        && final(self).file_section_scroll_offset == scroll_for_selection(*old(self), t)
                }
            }),
    {
        let ghost items = self.current_items();
        if self.selected_item_index == 0 {
            return;
        }
        let mut idx = self.selected_item_index;
        while idx > 0
            invariant
                items == self.current_items(),
                self.wf(),
                *self == *old(self),
                idx <= self.selected_item_index,
                prev_section_target(items, self.selected_item_index as int) == prev_scan(items, idx as int),
            decreases idx,
        {
            idx = idx - 1;
            if is_separator(&self.menus[self.selected_menu_index].items[idx]) {
                if idx == 0 {
                    return;
                }
                idx = idx - 1;
                while idx > 0 && is_separator(&self.menus[self.selected_menu_index].items[idx])
                    invariant
                        items == self.current_items(),
                        self.wf(),
                        *self == *old(self),
                        idx < items.len(),
                        skip_seps_back(items, idx as int) == prev_section_target(items, self.selected_item_index as int),
                    decreases idx,
                {
                    idx = idx - 1;
                }
                self.selected_item_index = idx;
                self.adjust_scroll_for_file_section(idx);
                self.needs_redraw = true;
                return;
            }
        }
        let len = self.menus[self.selected_menu_index].items.len();
        let mut first: usize = 0;
        while first < len && is_separator(&self.menus[self.selected_menu_index].items[first])
            invariant
                items == self.current_items(),
                self.wf(),
                *self == *old(self),
                len == items.len(),
                first <= len,
                Self::first_non_sep(items, first as int) == Self::first_non_sep(items, 0),
            decreases len - first,
        {
            first = first + 1;
        }
        let target = if first < len { first } else { 0 };
        self.selected_item_index = target;
        self.needs_redraw = true;
    }

    /// Ctrl+Down: select the first item after the next separator below the
    /// selection (skipping runs of separators); nothing happens when there is
    /// none.
    pub fn jump_to_next_section(&mut self)
        requires
            old(self).wf(),
        ensures
            final(self).wf(),
            final(self).menus == old(self).menus,
            final(self).selected_menu_index == old(self).selected_menu_index,
            final(self).active == old(self).active && final(self).dropdown_open == old(self).dropdown_open,
            ({
                let items = old(self).current_items();
                match next_section_target(items, old(self).selected_item_index as int) {
                    Some(t) => final(self).selected_item_index == t && final(self).needs_redraw
                        && final(self).file_section_scroll_offset == scroll_for_selection(*old(self), t),
                    None => *final(self) == *old(self),
                }
            }),
    {
        let ghost items = self.current_items();
        let len = self.menus[self.selected_menu_index].items.len();
        let mut idx = self.selected_item_index + 1;
        while idx < len
            invariant
                items == self.current_items(),
                len == items.len(),
                self.wf(),
                *self == *old(self),
                self.selected_item_index < idx,
                next_section_target(items, self.selected_item_index as int) == next_scan(items, idx as int),
            decreases len - idx,
        {
            if is_separator(&self.menus[self.selected_menu_index].items[idx]) {
                idx = idx + 1;
                while idx < len && is_separator(&self.menus[self.selected_menu_index].items[idx])
                    invariant
                        items == self.current_items(),
                        len == items.len(),
                        self.wf(),
                        *self == *old(self),
                        idx <= len,
                        next_section_target(items, self.selected_item_index as int) == skip_seps_fwd(items, idx as int),
                    decreases len - idx,
                {
                    idx = idx + 1;
                }
                if idx < len {
                    self.selected_item_index = idx;
                    self.adjust_scroll_for_file_section(idx);
                    self.needs_redraw = true;
                }
                return;
            }
            idx = idx + 1;
        }
    }

    /// When `idx` is a recent file of the File menu, keep it visible.
    pub fn adjust_scroll_for_file_section(&mut self, idx: usize)
        requires
            old(self).wf(),
            idx == old(self).selected_item_index,
        ensures
            *final(self) == (MenuBar {
                file_section_scroll_offset: scroll_for_selection(*old(self), idx as int) as usize,
                ..*old(self)
            }),
    {
        if self.selected_menu_index != FILE_MENU_INDEX || idx < FILE_SECTION_START_IDX {
            return;
        }
        let (_, file_end_idx) = self.get_file_section_bounds();
        if idx >= file_end_idx {
            return;
        }
        self.ensure_selected_visible();
    }
}

/// Scroll offset of the File menu's file section after selecting item `sel`:
/// unchanged outside the file section; 0 when all files fit; otherwise the
/// smallest change that keeps the file in a window of `max_visible_files`.
pub open spec fn scroll_for_selection(bar: MenuBar, sel: int) -> int {
    let (count, end) = file_section(bar.menus@[FILE_MENU_INDEX as int].items@);
    if bar.selected_menu_index != FILE_MENU_INDEX || sel < FILE_SECTION_START_IDX || sel >= end {
        bar.file_section_scroll_offset as int
    } else if count <= bar.max_visible_files {
        0
    } else {
        let file_idx = sel - FILE_SECTION_START_IDX;
        let o1 = if file_idx < bar.file_section_scroll_offset { file_idx } else { bar.file_section_scroll_offset as int };
        if file_idx >= o1 + bar.max_visible_files { file_idx - bar.max_visible_files + 1 } else { o1 }
    }
}

/// Action of an item (`None` for separators).
pub open spec fn item_action(item: MenuItem) -> Option<MenuAction> {
    match item {
        MenuItem::Action { action, .. } => Some(action),
        MenuItem::Checkable { action, .. } => Some(action),
        MenuItem::Separator => None,
    }
}

/// `item` with its checked state set when it is a checkable item for
/// `action`.
pub open spec fn with_checked(item: MenuItem, action: MenuAction, checked: bool) -> MenuItem {
    match item {
        MenuItem::Checkable { label, action: a, checked: c } => MenuItem::Checkable {
            label,
            action: a,
            checked: if a == action { checked } else { c },
        },
        _ => item,
    }
}

/// The five fixed items at the top of the File menu.
pub open spec fn file_menu_head(items: Seq<MenuItem>) -> bool {
    &&& items.len() >= 5
    &&& items[0] matches MenuItem::Action { label: l, action: MenuAction::FileNew } && l@ == "New"@
    &&& items[1] matches MenuItem::Action { label: l, action: MenuAction::FileOpenDialog } && l@ == "Open..."@
    &&& items[2] matches MenuItem::Action { label: l, action: MenuAction::FileSave } && l@ == "Save"@
    &&& items[3] matches MenuItem::Action { label: l, action: MenuAction::FileClose } && l@ == "Close"@
    &&& items[4] matches MenuItem::Action { label: l, action: MenuAction::FileCloseAll } && l@ == "Close all"@
}

/// The File-menu entry for recent file `k` with the given label.
pub open spec fn recent_item(item: MenuItem, label: String, k: int) -> bool {
    item matches MenuItem::Action { label: l, action: a } && l@ == label@ && a == MenuAction::FileOpenRecent(k as usize)
}

/// The File menu for the given recent-file labels.
pub open spec fn file_menu_items(items: Seq<MenuItem>, labels: Seq<String>) -> bool {
    let n = labels.len() as int;
    let tail = if n > 0 { 6 + n } else { 5 };
    &&& file_menu_head(items)
    &&& items.len() == tail + 2
    &&& n > 0 ==> is_sep(items[5])
    &&& forall|k: int| 0 <= k < n ==> recent_item(#[trigger] items[6 + k], labels[k], k)
    &&& is_sep(items[tail])
    &&& items[tail + 1] matches MenuItem::Action { label: l, action: MenuAction::FileQuit } && l@ == "Quit"@
}

/// Ctrl+Up outcome "nothing changes".
pub open spec fn stay() -> int {
    -2
}

/// Ctrl+Up outcome "select the first non-separator".
pub open spec fn first_item() -> int {
    -1
}

/// Walk up from just above `idx` looking for a separator.
/// (`stay()`, `first_item()`, or the index to select).
pub open spec fn prev_scan(items: Seq<MenuItem>, idx: int) -> int
    decreases idx,
{
    if idx <= 0 {
        first_item()
    } else if is_sep(items[idx - 1]) {
        if idx - 1 == 0 { stay() } else { skip_seps_back(items, idx - 2) }
    } else {
        prev_scan(items, idx - 1)
    }
}

/// From `idx`, step up past separators (stopping at index 0).
pub open spec fn skip_seps_back(items: Seq<MenuItem>, idx: int) -> int
    decreases idx,
{
    if idx > 0 && is_sep(items[idx]) { skip_seps_back(items, idx - 1) } else { idx }
}

/// Item that Ctrl+Up selects from `cur` (see `jump_to_prev_section`).
pub open spec fn prev_section_target(items: Seq<MenuItem>, cur: int) -> int {
    if cur == 0 { stay() } else { prev_scan(items, cur) }
}

/// Walk down from `idx` looking for a separator.
pub open spec fn next_scan(items: Seq<MenuItem>, idx: int) -> Option<int>
    decreases items.len() - idx,
{
    if idx >= items.len() {
        None
    } else if is_sep(items[idx]) {
        skip_seps_fwd(items, idx + 1)
    } else {
        next_scan(items, idx + 1)
    }
}

/// From `idx`, step down past separators; `None` past the end.
pub open spec fn skip_seps_fwd(items: Seq<MenuItem>, idx: int) -> Option<int>
    decreases items.len() - idx,
{
    if idx >= items.len() {
        None
    } else if is_sep(items[idx]) {
        skip_seps_fwd(items, idx + 1)
    } else {
        Some(idx)
    }
}

/// Item that Ctrl+Down selects from `cur` (see `jump_to_next_section`).
pub open spec fn next_section_target(items: Seq<MenuItem>, cur: int) -> Option<int> {
    next_scan(items, cur + 1)
}

} // verus!

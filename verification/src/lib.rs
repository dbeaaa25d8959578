use vstd::prelude::*;

pub mod text;
pub mod settings;
pub mod undo;
pub mod editor_state;
pub mod coordinates;
pub mod keys;
pub mod menu;
pub mod editing;
pub mod find;
pub mod double_esc;
pub mod file_selector;
pub mod help;
pub mod selection;
pub mod navigation;
pub mod multi_cursor;
pub mod edit_keys;
pub mod goto_line;
pub mod vertical;
pub mod cursor_keys;
pub mod search;
pub mod find_step;
pub mod find_input;
pub mod selector;
pub mod dropdown;
pub mod document_keys;
pub mod key_dispatch;
pub mod viewport;
pub mod highlight;
pub mod replace_input;

verus! {
}

//! Editor settings that the layout and editing logic read.
use vstd::prelude::*;

verus! {

/// Appearance settings.
pub struct Appearance {
    /// Minimum number of digits of the line-number gutter (0 hides it).
    pub line_number_digits: u8,
}

/// Editor settings.
pub struct Settings {
    /// Columns between tab stops.
    pub tab_width: usize,
    /// Whether long lines wrap (can be overridden at runtime).
    pub line_wrapping: bool,
    pub appearance: Appearance,
    /// Context lines shown before each hit in filter mode.
    pub filter_context_before: usize,
    /// Context lines shown after each hit in filter mode.
    pub filter_context_after: usize,
    /// Most files listed in the File menu at once.
    pub max_menu_files: usize,
    /// Window for a double Esc press, in milliseconds.
    pub double_tap_speed_ms: u64,
    /// Columns scrolled per Alt+Left/Right when wrapping is off.
    pub horizontal_scroll_speed: usize,
}

impl Default for Settings {
    fn default() -> (s: Self)
        ensures
            s.tab_width == 4,
            s.line_wrapping,
            s.appearance.line_number_digits == 3,
            s.filter_context_before == 0,
            s.filter_context_after == 0,
            s.max_menu_files == 5,
            s.double_tap_speed_ms == 300,
            s.horizontal_scroll_speed == 4,
    {
        Settings {
            tab_width: 4,
            line_wrapping: true,
            appearance: Appearance { line_number_digits: 3 },
            filter_context_before: 0,
            filter_context_after: 0,
            max_menu_files: 5,
            double_tap_speed_ms: 300,
            horizontal_scroll_speed: 4,
        }
    }
}

} // verus!

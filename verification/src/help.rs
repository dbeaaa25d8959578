//! Help screen: which help page, closing keys, and fitting rendered lines
//! into the terminal width.
use vstd::prelude::*;
use crate::keys::{KeyCode, KeyEvent};
use crate::editor_state::FileViewerState;
use crate::coordinates::{decimal_digits, line_number_display_width};
use crate::text::{string_push, unicode_char_width, unicode_width_of};

verus! {

/// Which help page is shown.
#[derive(Debug, Clone, Copy, PartialEq, Eq, Structural)]
pub enum HelpContext {
    Editor,
    Find,
}

/// Escape character that starts an ANSI sequence.
pub const ESC: char = '\x1b';

/// ASCII letters (they end an ANSI escape sequence).
pub open spec fn ascii_letter(c: char) -> bool {
    ('a' <= c && c <= 'z') || ('A' <= c && c <= 'Z')
}

/// Whether position `i` of `s` is inside an ANSI escape sequence (after its
/// ESC, up to and including the letter that ends it) before reading `s[i]`.
pub open spec fn in_escape(s: Seq<char>, i: int) -> bool
    decreases i,
{
    if i <= 0 {
        false
    } else if s[i - 1] == ESC {
        true
    } else if in_escape(s, i - 1) {
        !ascii_letter(s[i - 1])
    } else {
        false
    }
}

/// Whether `s[i]` takes a column: it is neither ESC nor inside a sequence.
pub open spec fn is_visible(s: Seq<char>, i: int) -> bool {
    s[i] != ESC && !in_escape(s, i)
}

/// Columns a visible character takes: its Unicode display width, 1 for a
/// character without one.
pub open spec fn char_cols_of(c: char) -> int {
    match unicode_width_of(c) {
        Some(w) => w as int,
        None => 1,
    }
}

/// Display width of the visible characters before position `i`.
pub open spec fn visible_before(s: Seq<char>, i: int) -> int
    decreases i,
{
    if i <= 0 {
        0
    } else {
        visible_before(s, i - 1) + if is_visible(s, i - 1) { char_cols_of(s[i - 1]) } else { 0int }
    }
}

/// Where `truncate_to_width` cuts `s`: before the first visible character
/// that would take the display width past `max_width`.
pub open spec fn is_cut(s: Seq<char>, max_width: int, i: int) -> bool {
    &&& 0 <= i < s.len()
    &&& is_visible(s, i)
    &&& visible_before(s, i) <= max_width
    &&& visible_before(s, i) + char_cols_of(s[i]) > max_width
}

/// Cut `text` to at most `max_width` columns of display width; ANSI escape
/// sequences take no columns and are kept.
pub fn truncate_to_width(text: &str, max_width: usize) -> (r: String)
    ensures
        (exists|i: int| is_cut(text@, max_width as int, i)) ==> ({
            let i = choose|i: int| is_cut(text@, max_width as int, i);
            r@ == text@.take(i)
        }),
        (forall|i: int| !is_cut(text@, max_width as int, i)) ==> r@ == text@,
{
    let chars = crate::text::chars_of(text);
    let ghost s = text@;
    let mut result = String::new();
    let mut esc = false;
    let mut width: usize = 0;
    let mut i: usize = 0;
    while i < chars.len()
        invariant
            chars@ == s,
            s == text@,
            i <= s.len(),
            esc == in_escape(s, i as int),
            width == visible_before(s, i as int),
            width <= max_width,
            result@ == s.take(i as int),
            forall|j: int| 0 <= j < i ==> !is_cut(s, max_width as int, j),
        decreases s.len() - i,
    {
        let ch = chars[i];
        if ch == ESC {
            string_push(&mut result, ch);
            esc = true;
        } else if esc {
            string_push(&mut result, ch);
            if ('a' <= ch && ch <= 'z') || ('A' <= ch && ch <= 'Z') {
                esc = false;
            }
        } else {
            let w: usize = match unicode_char_width(ch) {
                Some(w) => w,
                None => 1,
            };
            assert(s[i as int] == ch);
            if w > max_width - width {
                proof {
                    assert(is_cut(text@, max_width as int, i as int));
                    lemma_cut_unique(text@, max_width as int, i as int);
                    let c = choose|j: int| is_cut(text@, max_width as int, j);
                    assert(c == i);
                    assert(!(forall|j: int| !is_cut(text@, max_width as int, j)));
                }
                return result;
            }
            width = width + w;
            string_push(&mut result, ch);
        }
        assert(result@ =~= s.take(i + 1));
        i = i + 1;
    }
    assert(s.take(s.len() as int) =~= s);
    assert forall|j: int| !is_cut(s, max_width as int, j) by {
        if 0 <= j < i {
        }
    }
    result
}

/// The display width before a position never decreases along the text.
proof fn lemma_visible_before_mono(s: Seq<char>, i: int, j: int)
    requires
        0 <= i <= j,
    ensures
        visible_before(s, i) <= visible_before(s, j),
    decreases j - i,
{
    if i < j {
        lemma_visible_before_mono(s, i, j - 1);
        assert(char_cols_of(s[j - 1]) >= 0);
    }
}

/// There is only one cut position.
proof fn lemma_cut_unique(s: Seq<char>, w: int, i: int)
    requires
        is_cut(s, w, i),
    ensures
        forall|j: int| is_cut(s, w, j) ==> j == i,
{
    assert forall|j: int| is_cut(s, w, j) implies j == i by {
        if j < i {
            lemma_visible_before_mono(s, j + 1, i);
        } else if i < j {
            lemma_visible_before_mono(s, i + 1, j);
        }
    }
}

/// `truncate_to_width` under the name the rendering code uses for rendered
/// markdown lines.
pub fn truncate_rendered_line(text: &str, max_width: usize) -> (r: String)
    ensures
        (exists|i: int| is_cut(text@, max_width as int, i)) ==> ({
            let i = choose|i: int| is_cut(text@, max_width as int, i);
            r@ == text@.take(i)
        }),
        (forall|i: int| !is_cut(text@, max_width as int, i)) ==> r@ == text@,
{
    truncate_to_width(text, max_width)
}

/// Whether a key closes the help screen: Esc or F1.
pub fn handle_help_input(key_event: KeyEvent) -> (close: bool)
    ensures
        close == (key_event.code == KeyCode::Esc || key_event.code == KeyCode::F(1)),
{
    match key_event.code {
        KeyCode::Esc => true,
        KeyCode::F(n) => n == 1,
        _ => false,
    }
}

/// Width available for rendered markdown: the terminal width minus the line
/// number gutter and the scrollbar column.
pub fn markdown_render_width(term_width: usize, state: &FileViewerState, line_count: usize) -> (r: usize)
    ensures
        ({
            let digits = state.settings.appearance.line_number_digits;
            let n = decimal_digits(line_count as nat);
            let g = if digits == 0 { 0 } else { (if n >= digits { n as int } else { digits as int }) + 1 };
            r == if term_width >= g + 1 { term_width - g - 1 } else { 0 }
        }),
{
    let gutter = line_number_display_width(state.settings, line_count) as usize;
    term_width.saturating_sub(gutter + 1)
}

} // verus!

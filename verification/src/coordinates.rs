//! Layout of text on the terminal: display widths, word wrapping, visual
//! line counts, and the mapping between screen and document positions.
use vstd::prelude::*;
use crate::editor_state::FileViewerState;
use crate::find::{filtered_lines, get_lines_with_matches_checked, increasing, lemma_filtered_in_document, set_of};
use crate::settings::Settings;
use crate::text::{
    char_cols, char_visual_width, chars_of, is_white_space, lemma_step_bound, prefix_width, range_cols,
    range_width, seg_width, seq_width, text_fits, char_is_whitespace, lines_fit,
};

verus! {

/// Line-wrap indicator shown at the end of a wrapped segment.
pub const WRAP_INDICATOR: char = '↩';

// ---------------------------------------------------------------------------
// Visual-width helpers
// ---------------------------------------------------------------------------

/// Display width of `s`: tabs advance to the next multiple of `tab_width`,
/// other characters take their Unicode width (wide characters take 2).
pub fn visual_width(s: &str, tab_width: usize) -> (r: usize)
    requires
        text_fits(s@, tab_width),
    ensures
        r == seq_width(s@, tab_width as int),
{
    let mut width: usize = 0;
    for ch in it: s.chars()
        invariant
            it.seq() == s@,
            text_fits(s@, tab_width),
            width == prefix_width(s@, it.index() as nat, tab_width as int),
            width <= it.index() * (tab_width + 3),
    {
        let ghost n = it.index();
        assert(s@[n as int] == ch);
        if ch == '\t' {
            assert(s@.contains('\t'));
        }
        let cw = char_visual_width(ch, width, tab_width);
        proof {
            lemma_step_bound(n as int, s@.len() as int, tab_width + 3);
        }
        width = width + cw;
    }
    width
}

/// Display width of the first `char_index` characters of `s` (all of `s` when
/// it is shorter).
pub fn visual_width_up_to(s: &str, char_index: usize, tab_width: usize) -> (r: usize)
    requires
        text_fits(s@, tab_width),
    ensures
        r == prefix_width(
            s@,
            (if char_index < s@.len() { char_index as nat } else { s@.len() }),
            tab_width as int,
        ),
        r <= s@.len() * (tab_width + 3),
{
    let chars = chars_of(s);
    let n = if char_index < chars.len() { char_index } else { chars.len() };
    let r = range_cols(&chars, 0, n, tab_width);
    assert(n * (tab_width + 3) <= chars@.len() * (tab_width + 3)) by (nonlinear_arith)
        requires
            n <= chars@.len(),
    ;
    r
}

/// Character index at which display column `visual_col` is reached: the
/// first index whose preceding characters are at least `visual_col` wide, or
/// the length of the line when the line is narrower.
pub fn visual_col_to_char_index(line: &str, visual_col: usize, tab_width: usize) -> (r: usize)
    requires
        text_fits(line@, tab_width),
    ensures
        r <= line@.len(),
        forall|j: nat| j < r ==> prefix_width(line@, j, tab_width as int) < visual_col,
        r < line@.len() ==> prefix_width(line@, r as nat, tab_width as int) >= visual_col,
{
    let chars = chars_of(line);
    let mut current: usize = 0;
    let mut idx: usize = 0;
    while idx < chars.len()
        invariant
            chars@ == line@,
            idx <= chars@.len(),
            text_fits(chars@, tab_width),
            current == prefix_width(chars@, idx as nat, tab_width as int),
            current <= idx * (tab_width + 3),
            forall|j: nat| j < idx ==> prefix_width(chars@, j, tab_width as int) < visual_col,
        decreases chars@.len() - idx,
    {
        if current >= visual_col {
            return idx;
        }
        let ch = chars[idx];
        if ch == '\t' {
            assert(chars@.contains('\t')) by { assert(chars@[idx as int] == '\t'); }
        }
        let cw = char_visual_width(ch, current, tab_width);
        proof {
            lemma_step_bound(idx as int, chars@.len() as int, tab_width + 3);
        }
        current = current + cw;
        idx = idx + 1;
    }
    chars.len()
}

// ---------------------------------------------------------------------------
// Word-wrap calculation
// ---------------------------------------------------------------------------

/// Index of the last white-space character of `s[lo..hi]`, if any.
pub open spec fn last_ws(s: Seq<char>, lo: int, hi: int) -> Option<int>
    decreases hi - lo,
{
    if hi <= lo {
        None
    } else if is_white_space(s[hi - 1]) {
        Some(hi - 1)
    } else {
        last_ws(s, lo, hi - 1)
    }
}

/// Index of the last non-white-space character of `s[lo..hi]`, if any.
pub open spec fn last_non_ws(s: Seq<char>, lo: int, hi: int) -> Option<int>
    decreases hi - lo,
{
    if hi <= lo {
        None
    } else if !is_white_space(s[hi - 1]) {
        Some(hi - 1)
    } else {
        last_non_ws(s, lo, hi - 1)
    }
}

/// Start of the run of non-white-space characters (not before `lo`) that
/// ends at index `k`.
pub open spec fn run_start(s: Seq<char>, lo: int, k: int) -> int
    decreases k - lo,
{
    if k > lo && !is_white_space(s[k - 1]) {
        run_start(s, lo, k - 1)
    } else {
        k
    }
}

/// Start of the last word (run of non-white-space characters) in
/// `s[lo..hi]`, or `lo` when there is none.
pub open spec fn last_word_start(s: Seq<char>, lo: int, hi: int) -> int {
    match last_non_ws(s, lo, hi) {
        Some(k) => run_start(s, lo, k),
        None => lo,
    }
}

/// Scanning from `from`, the first index `i` at which the segment
/// `s[start..=i]` becomes wider than `usable`; `s.len()` when there is none.
pub open spec fn first_overflow(s: Seq<char>, start: int, from: int, usable: int, tab: int) -> int
    decreases s.len() - from,
{
    if from >= s.len() {
        s.len() as int
    } else if seg_width(s, start, (from - start + 1) as nat, tab) > usable {
        from
    } else {
        first_overflow(s, start, from + 1, usable, tab)
    }
}

/// Where the visual line starting at `start` breaks: after the last white
/// space before the overflowing character when the word being broken is at
/// most `max_word` wide and that white space is not the segment's first
/// character; otherwise at the overflowing character itself (at least one
/// character per segment).  `None` when nothing overflows.
pub open spec fn segment_break(s: Seq<char>, start: int, usable: int, max_word: int, tab: int) -> Option<int> {
    let i = first_overflow(s, start, start, usable, tab);
    let fallback = if i > start { i } else { start + 1 };
    if i >= s.len() {
        None
    } else {
        match last_ws(s, start, i) {
            Some(sp) => {
                let ws = last_word_start(s, start, i);
                if range_width(s, ws, i, tab) <= max_word && sp > start {
                    Some(sp + 1)
                } else {
                    Some(fallback)
                }
            },
            None => Some(fallback),
        }
    }
}

/// The next wrap point after `start`: none when the rest of the line fits in
/// `usable` columns or the break would not move forward.
pub open spec fn next_wrap(s: Seq<char>, start: int, usable: int, max_word: int, tab: int) -> Option<int> {
    if range_width(s, start, s.len() as int, tab) <= usable {
        None
    } else {
        match segment_break(s, start, usable, max_word, tab) {
            Some(bp) => if start < bp < s.len() { Some(bp) } else { None },
            None => None,
        }
    }
}

/// Wrap points of `s` from `start` on.
pub open spec fn wrap_points_from(s: Seq<char>, start: int, usable: int, max_word: int, tab: int) -> Seq<int>
    decreases s.len() - start,
{
    if start < 0 || start >= s.len() {
        Seq::empty()
    } else {
        match next_wrap(s, start, usable, max_word, tab) {
            Some(bp) => if start < bp { seq![bp] + wrap_points_from(s, bp, usable, max_word, tab) } else { Seq::empty() },
            None => Seq::empty(),
        }
    }
}

/// Character indices at which the visual lines of `s` after the first begin,
/// for a text area `text_width` columns wide (one column is kept for the wrap
/// indicator; words wider than half the area are broken anywhere).
pub open spec fn word_wrap_points(s: Seq<char>, text_width: int, tab: int) -> Seq<int> {
    if text_width == 0 || s.len() == 0 {
        Seq::empty()
    } else {
        wrap_points_from(s, 0, if text_width >= 1 { text_width - 1 } else { 0 }, text_width / 2, tab)
    }
}

/// The elements of a `usize` sequence as integers.
pub open spec fn as_ints(v: Seq<usize>) -> Seq<int> {
    v.map_values(|x: usize| x as int)
}

/// Strictly increasing points inside `(0, len)` number fewer than `len`.
pub proof fn lemma_valid_points_len(p: Seq<int>, len: int)
    requires
        valid_wrap_points(p, 0, len),
    ensures
        p.len() < len || p.len() == 0,
        forall|k: int| 0 <= k < p.len() ==> p[k] >= k + 1,
{
    assert forall|k: int| 0 <= k < p.len() implies p[k] >= k + 1 by {
        lemma_points_lower_bound(p, len, k);
    }
    if p.len() > 0 {
        assert(p[p.len() - 1] >= p.len());
    }
}

proof fn lemma_points_lower_bound(p: Seq<int>, len: int, k: int)
    requires
        valid_wrap_points(p, 0, len),
        0 <= k < p.len(),
    ensures
        p[k] >= k + 1,
    decreases k,
{
    if k > 0 {
        lemma_points_lower_bound(p, len, k - 1);
        assert(p[k - 1] < p[k]);
    }
}

/// Wrap points are strictly increasing and lie strictly inside the line.
pub open spec fn valid_wrap_points(p: Seq<int>, lo: int, len: int) -> bool {
    &&& forall|k: int| 0 <= k < p.len() ==> lo < #[trigger] p[k] < len
    &&& forall|a: int, b: int| 0 <= a < b < p.len() ==> #[trigger] p[a] < #[trigger] p[b]
}

/// The wrap points from `start` are increasing and inside `(start, len)`.
pub proof fn lemma_wrap_points_valid(s: Seq<char>, start: int, usable: int, max_word: int, tab: int)
    ensures
        valid_wrap_points(wrap_points_from(s, start, usable, max_word, tab), start, s.len() as int),
    decreases s.len() - start,
{
    let p = wrap_points_from(s, start, usable, max_word, tab);
    if start < 0 || start >= s.len() {
    } else {
        match next_wrap(s, start, usable, max_word, tab) {
            Some(bp) => {
                if start < bp {
                    lemma_wrap_points_valid(s, bp, usable, max_word, tab);
                    let rest = wrap_points_from(s, bp, usable, max_word, tab);
                    assert(p == seq![bp] + rest);
                    assert forall|k: int| 0 <= k < p.len() implies start < #[trigger] p[k] < s.len() by {
                        if k > 0 {
                            assert(p[k] == rest[k - 1]);
                        }
                    }
                    assert forall|a: int, b: int| 0 <= a < b < p.len() implies #[trigger] p[a] < #[trigger] p[b] by {
                        if a == 0 {
                            assert(p[b] == rest[b - 1]);
                        } else {
                            assert(p[a] == rest[a - 1]);
                            assert(p[b] == rest[b - 1]);
                        }
                    }
                }
            },
            None => {},
        }
    }
}

/// Where the visual line that starts at `start` breaks (see `segment_break`).
fn find_segment_break(chars: &Vec<char>, start: usize, usable: usize, max_word: usize, tab_width: usize) -> (r: Option<usize>)
    requires
        start < chars@.len(),
        text_fits(chars@, tab_width),
    ensures
        match r {
            Some(b) => segment_break(chars@, start as int, usable as int, max_word as int, tab_width as int) == Some(b as int),
            None => segment_break(chars@, start as int, usable as int, max_word as int, tab_width as int) is None,
        },
{
    let ghost s = chars@;
    let ghost tab = tab_width as int;
    let mut current: usize = 0;
    let mut last_space: Option<usize> = None;
    let mut word_start: usize = start;
    let mut in_word = false;
    let mut i: usize = start;
    while i < chars.len()
        invariant
            s == chars@,
            tab == tab_width as int,
            start <= i <= chars@.len(),
            text_fits(chars@, tab_width),
            current == seg_width(s, start as int, (i - start) as nat, tab),
            current <= (i - start) * (tab_width + 3),
            current <= usable,
            first_overflow(s, start as int, start as int, usable as int, tab)
                == first_overflow(s, start as int, i as int, usable as int, tab),
            match last_space {
                Some(sp) => last_ws(s, start as int, i as int) == Some(sp as int) && sp < i,
                None => last_ws(s, start as int, i as int) is None,
            },
            word_start == last_word_start(s, start as int, i as int),
            start <= word_start <= i,
            in_word == (i > start && !is_white_space(s[i - 1])),
        decreases chars@.len() - i,
    {
        let ch = chars[i];
        if ch == '\t' {
            assert(s.contains('\t')) by { assert(s[i as int] == '\t'); }
        }
        let cw = char_visual_width(ch, current, tab_width);
        proof {
            lemma_step_bound((i - start) as int, chars@.len() as int, tab_width + 3);
            let k = (i - start + 1) as nat;
            assert((k - 1) as nat == (i - start) as nat);
            assert(start + k - 1 == i);
            assert(s[i as int] == ch);
            assert(seg_width(s, start as int, k, tab)
                == seg_width(s, start as int, (k - 1) as nat, tab) + char_cols(s[start + k - 1], seg_width(s, start as int, (k - 1) as nat, tab), tab));
            assert(seg_width(s, start as int, (k - 1) as nat, tab) == current);
            assert(char_cols(s[start + k - 1], current as int, tab) == cw);
            assert(seg_width(s, start as int, k, tab) == current + cw);
        }
        if current + cw > usable {
            // `i` is the first overflowing character.
            assert(first_overflow(s, start as int, i as int, usable as int, tab) == i);
            if let Some(space_idx) = last_space {
                let word_visual = range_cols(chars, word_start, i, tab_width);
                if word_visual <= max_word && space_idx > start {
                    return Some(space_idx + 1);
                }
            }
            return Some(if i > start { i } else { start + 1 });
        }
        current = current + cw;
        let ws = char_is_whitespace(ch);
        proof {
            assert(last_ws(s, start as int, i + 1) == (if ws { Some(i as int) } else { last_ws(s, start as int, i as int) }));
            assert(last_non_ws(s, start as int, i + 1) == (if ws { last_non_ws(s, start as int, i as int) } else { Some(i as int) }));
            if !ws {
                if in_word {
                    assert(last_non_ws(s, start as int, i as int) == Some(i - 1));
                    assert(run_start(s, start as int, i as int) == run_start(s, start as int, i - 1));
                } else {
                    assert(run_start(s, start as int, i as int) == i);
                }
            }
        }
        if ws {
            last_space = Some(i);
            in_word = false;
        } else if !in_word {
            word_start = i;
            in_word = true;
        }
        i = i + 1;
    }
    None
}

/// The next wrap point of the line after `start` (see `next_wrap`).
fn next_wrap_point(chars: &Vec<char>, start: usize, usable: usize, max_word: usize, tab_width: usize) -> (r: Option<usize>)
    requires
        start < chars@.len(),
        text_fits(chars@, tab_width),
    ensures
        match r {
            Some(b) => next_wrap(chars@, start as int, usable as int, max_word as int, tab_width as int) == Some(b as int),
            None => next_wrap(chars@, start as int, usable as int, max_word as int, tab_width as int) is None,
        },
{
    let remaining = range_cols(chars, start, chars.len(), tab_width);
    if remaining <= usable {
        return None;
    }
    match find_segment_break(chars, start, usable, max_word, tab_width) {
        Some(bp) => if start < bp && bp < chars.len() { Some(bp) } else { None },
        None => None,
    }
}

/// Character indices at which the visual lines of `line` after the first
/// begin, when wrapped into `text_width` columns (see `word_wrap_points`).
pub fn calculate_word_wrap_points(line: &str, text_width: usize, tab_width: usize) -> (r: Vec<usize>)
    requires
        text_fits(line@, tab_width),
    ensures
        as_ints(r@) == word_wrap_points(line@, text_width as int, tab_width as int),
        valid_wrap_points(as_ints(r@), 0, line@.len() as int),
{
    let ghost spec_points = word_wrap_points(line@, text_width as int, tab_width as int);
    if text_width == 0 || line.is_empty() {
        let v: Vec<usize> = Vec::new();
        assert(as_ints(v@) =~= Seq::<int>::empty());
        return v;
    }
    let usable = if text_width >= 1 { text_width - 1 } else { 0 };
    let max_word = text_width / 2;
    let chars = chars_of(line);
    let ghost s = chars@;
    proof {
        lemma_wrap_points_valid(s, 0, usable as int, max_word as int, tab_width as int);
        assert(spec_points == wrap_points_from(s, 0, usable as int, max_word as int, tab_width as int));
    }
    let mut wrap_points: Vec<usize> = Vec::new();
    let mut line_start: usize = 0;
    assert(as_ints(wrap_points@) + wrap_points_from(s, 0, usable as int, max_word as int, tab_width as int)
        =~= spec_points);
    while line_start < chars.len()
        invariant
            s == chars@,
            s == line@,
            line_start <= chars@.len(),
            text_fits(chars@, tab_width),
            usable == (if text_width >= 1 { text_width - 1 } else { 0 }),
            max_word == text_width / 2,
            text_width != 0 && s.len() != 0,
            spec_points == word_wrap_points(line@, text_width as int, tab_width as int),
            valid_wrap_points(spec_points, 0, line@.len() as int),
            as_ints(wrap_points@) + wrap_points_from(s, line_start as int, usable as int, max_word as int, tab_width as int)
                == spec_points,
        decreases chars@.len() - line_start,
    {
        match next_wrap_point(&chars, line_start, usable, max_word, tab_width) {
            Some(bp) => {
                proof {
                    let rest = wrap_points_from(s, bp as int, usable as int, max_word as int, tab_width as int);
                    assert(wrap_points_from(s, line_start as int, usable as int, max_word as int, tab_width as int)
                        == seq![bp as int] + rest);
                    assert(as_ints(wrap_points@.push(bp)) =~= as_ints(wrap_points@).push(bp as int));
                    assert(as_ints(wrap_points@) + (seq![bp as int] + rest) =~= as_ints(wrap_points@).push(bp as int) + rest);
                }
                wrap_points.push(bp);
                line_start = bp;
            },
            None => {
                assert(as_ints(wrap_points@) =~= as_ints(wrap_points@) + Seq::<int>::empty());
                return wrap_points;
            },
        }
    }
    assert(as_ints(wrap_points@) =~= as_ints(wrap_points@) + Seq::<int>::empty());
    wrap_points
}

/// Character range `[start, end)` of wrap segment `wrap_index` of a line
/// with `len` characters and the given wrap points (`(len, len)` past the
/// last segment).
pub open spec fn segment_range(p: Seq<int>, len: int, wrap_index: int) -> (int, int) {
    if wrap_index == 0 {
        (0, if p.len() > 0 { p[0] } else { len })
    } else if wrap_index <= p.len() {
        (p[wrap_index - 1], if wrap_index < p.len() { p[wrap_index] } else { len })
    } else {
        (len, len)
    }
}

/// Character range `[start, end)` of one wrap segment of `line`.
pub fn get_wrap_segment_range(line: &str, wrap_index: usize, text_width: usize, tab_width: usize) -> (r: (usize, usize))
    requires
        text_fits(line@, tab_width),
    ensures
        (r.0 as int, r.1 as int) == segment_range(
            word_wrap_points(line@, text_width as int, tab_width as int),
            line@.len() as int,
            wrap_index as int,
        ),
{
    let wrap_points = calculate_word_wrap_points(line, text_width, tab_width);
    let line_len = line.unicode_len();
    proof {
        assert(as_ints(wrap_points@).len() == wrap_points@.len());
        assert forall|k: int| 0 <= k < wrap_points@.len() implies as_ints(wrap_points@)[k] == wrap_points@[k] as int by {}
    }
    if wrap_index == 0 {
        (0, if wrap_points.len() > 0 { wrap_points[0] } else { line_len })
    } else if wrap_index <= wrap_points.len() {
        let start = wrap_points[wrap_index - 1];
        let end = if wrap_index < wrap_points.len() { wrap_points[wrap_index] } else { line_len };
        (start, end)
    } else {
        (line_len, line_len)
    }
}

// ---------------------------------------------------------------------------
// Line-count helpers
// ---------------------------------------------------------------------------

/// Visual lines taken by logical line `idx` (as the `u16` the layout code
/// reports): 1 when the index is past the end, wrapping is off or the text
/// area has no width; otherwise one more than the number of wrap points.
pub open spec fn wrapped_line_count(lines: Seq<String>, idx: int, text_width: u16, tab: usize, wrapping: bool) -> u16 {
    if idx < 0 || idx >= lines.len() || !wrapping || text_width == 0 {
        1
    } else {
        (word_wrap_points(lines[idx]@, text_width as int, tab as int).len() + 1) as u16
    }
}

/// Visual lines that logical line `idx` takes on screen.
pub open spec fn visual_lines_of(lines: Seq<String>, idx: int, text_width: u16, tab: usize, wrapping: bool) -> int {
    if wrapping {
        wrapped_line_count(lines, idx, text_width, tab, true) as int
    } else {
        1
    }
}

/// Visual lines taken by the logical lines `lo..hi`.
pub open spec fn visual_lines_in(lines: Seq<String>, lo: int, hi: int, text_width: u16, tab: usize, wrapping: bool) -> int
    decreases hi - lo,
{
    if hi <= lo {
        0
    } else {
        visual_lines_in(lines, lo, hi - 1, text_width, tab, wrapping) + visual_lines_of(lines, hi - 1, text_width, tab, wrapping)
    }
}

/// The lines can be laid out with `tab` when wrapping is on.
pub open spec fn wrap_ready(lines: Seq<String>, tab: usize, wrapping: bool) -> bool {
    wrapping ==> lines_fit(lines, tab)
}

/// Line counts fit comfortably in `usize` (each line takes at most 65535
/// visual lines).
pub open spec fn lines_count_ok(lines: Seq<String>) -> bool {
    lines.len() * 65535 <= usize::MAX / 2
}

/// Visual lines that logical line `line_index` occupies when wrapping is on
/// (at least 1).
pub fn calculate_wrapped_lines_for_line(lines: &[String], line_index: usize, text_width: u16, tab_width: usize) -> (r: u16)
    requires
        lines_fit(lines@, tab_width),
    ensures
        r == wrapped_line_count(lines@, line_index as int, text_width, tab_width, true),
{
    calculate_wrapped_lines_for_line_with_wrapping(lines, line_index, text_width, tab_width, true)
}

/// Visual lines that logical line `line_index` occupies.
pub fn calculate_wrapped_lines_for_line_with_wrapping(
    lines: &[String],
    line_index: usize,
    text_width: u16,
    tab_width: usize,
    wrapping_enabled: bool,
) -> (r: u16)
    requires
        wrap_ready(lines@, tab_width, wrapping_enabled),
    ensures
        r == wrapped_line_count(lines@, line_index as int, text_width, tab_width, wrapping_enabled),
{
    if line_index >= lines.len() || !wrapping_enabled || text_width == 0 {
        return 1;
    }
    assert(text_fits(lines@[line_index as int]@, tab_width));
    let wrap_points = calculate_word_wrap_points(lines[line_index].as_str(), text_width as usize, tab_width);
    assert(as_ints(wrap_points@).len() == wrap_points@.len());
    proof {
        lemma_valid_points_len(as_ints(wrap_points@), lines@[line_index as int]@.len() as int);
        assert(lines@[line_index as int]@.len() <= usize::MAX) by (nonlinear_arith)
            requires
                lines@[line_index as int]@.len() * (tab_width + 3) <= usize::MAX,
        ;
    }
    #[verifier::truncate]
    ((wrap_points.len() + 1) as u16)
}

/// Visual lines of one logical line, respecting the wrapping flag.
fn visual_lines_for(lines: &[String], logical_idx: usize, text_width: u16, tab_width: usize, wrapping_enabled: bool) -> (r: usize)
    requires
        wrap_ready(lines@, tab_width, wrapping_enabled),
    ensures
        r == visual_lines_of(lines@, logical_idx as int, text_width, tab_width, wrapping_enabled),
        r <= 65535,
{
    if wrapping_enabled {
        calculate_wrapped_lines_for_line(lines, logical_idx, text_width, tab_width) as usize
    } else {
        1
    }
}

/// Visual lines of the logical lines `lo..hi`.
pub(crate) fn sum_visual_lines(lines: &[String], lo: usize, hi: usize, text_width: u16, tab_width: usize, wrapping: bool) -> (r: usize)
    requires
        wrap_ready(lines@, tab_width, wrapping),
        lines_count_ok(lines@),
        hi <= lines@.len(),
    ensures
        r == visual_lines_in(lines@, lo as int, hi as int, text_width, tab_width, wrapping),
        r <= usize::MAX / 2,
{
    if hi <= lo {
        return 0;
    }
    let mut total: usize = 0;
    let mut i: usize = lo;
    while i < hi
        invariant
            lo <= i <= hi <= lines@.len(),
            wrap_ready(lines@, tab_width, wrapping),
            lines_count_ok(lines@),
            total == visual_lines_in(lines@, lo as int, i as int, text_width, tab_width, wrapping),
            total <= (i - lo) * 65535,
        decreases hi - i,
    {
        let v = visual_lines_for(lines, i, text_width, tab_width, wrapping);
        proof {
            lemma_step_bound((i - lo) as int, lines@.len() as int, 65535);
        }
        total = total + v;
        i = i + 1;
    }
    proof {
        assert((hi - lo) * 65535 <= lines@.len() * 65535) by (nonlinear_arith)
            requires
                hi - lo <= lines@.len(),
        ;
    }
    total
}

/// Total visual lines of the document (decides whether the scrollbar shows).
pub fn calculate_total_visual_lines(lines: &[String], state: &FileViewerState, text_width: u16) -> (r: usize)
    requires
        wrap_ready(lines@, state.settings.tab_width, state.spec_wrapping()),
        lines_count_ok(lines@),
    ensures
        r == visual_lines_in(lines@, 0, lines@.len() as int, text_width, state.settings.tab_width, state.spec_wrapping()),
{
    let wrapping = state.is_line_wrapping_enabled();
    sum_visual_lines(lines, 0, lines.len(), text_width, state.settings.tab_width, wrapping)
}

/// Visual lines above `state.top_line` (places the scrollbar thumb).
pub fn calculate_total_visual_lines_before(lines: &[String], state: &FileViewerState, text_width: u16) -> (r: usize)
    requires
        wrap_ready(lines@, state.settings.tab_width, state.spec_wrapping()),
        lines_count_ok(lines@),
    ensures
        r == visual_lines_in(
            lines@,
            0,
            if state.top_line < lines@.len() { state.top_line as int } else { lines@.len() as int },
            text_width,
            state.settings.tab_width,
            state.spec_wrapping(),
        ),
{
    let wrapping = state.is_line_wrapping_enabled();
    let end = if state.top_line < lines.len() { state.top_line } else { lines.len() };
    sum_visual_lines(lines, 0, end, text_width, state.settings.tab_width, wrapping)
}

/// Visual lines from `top_line` through the cursor line (inclusive).
pub fn calculate_visual_lines_to_cursor(lines: &[String], state: &FileViewerState, text_width: u16) -> (r: usize)
    requires
        wrap_ready(lines@, state.settings.tab_width, state.spec_wrapping()),
        lines_count_ok(lines@),
        state.top_line + state.cursor_line + 1 <= usize::MAX,
    ensures
        r == visual_lines_in(
            lines@,
            state.top_line as int,
            if state.top_line + state.cursor_line + 1 < lines@.len() {
                state.top_line + state.cursor_line + 1
            } else {
                lines@.len() as int
            },
            text_width,
            state.settings.tab_width,
            state.spec_wrapping(),
        ),
{
    let wrapping = state.is_line_wrapping_enabled();
    let wanted = state.top_line + state.cursor_line + 1;
    let end_line = if wanted < lines.len() { wanted } else { lines.len() };
    sum_visual_lines(lines, state.top_line, end_line, text_width, state.settings.tab_width, wrapping)
}

/// Index of the first of the points `p[from..]` that is greater than `col`
/// (`p.len()` when there is none).
pub open spec fn first_point_above(p: Seq<int>, col: int, from: int) -> int
    decreases p.len() - from,
{
    if from >= p.len() {
        p.len() as int
    } else if col < p[from] {
        from
    } else {
        first_point_above(p, col, from + 1)
    }
}

/// Wrap segment of the cursor's line that holds column `col` (0 when the
/// line is not wrapped).
pub open spec fn cursor_segment(lines: Seq<String>, line: int, col: int, text_width: u16, tab: usize, wrapping: bool) -> int {
    if wrapping && text_width > 0 && 0 <= line < lines.len() {
        first_point_above(word_wrap_points(lines[line]@, text_width as int, tab as int), col, 0)
    } else {
        0
    }
}

/// Visual line of the cursor within the viewport (0-based): the visual lines
/// of the logical lines from `top_line` up to the cursor's line, plus the
/// cursor's wrap segment.
pub fn calculate_cursor_visual_line(lines: &[String], state: &FileViewerState, text_width: u16) -> (r: usize)
    requires
        wrap_ready(lines@, state.settings.tab_width, state.spec_wrapping()),
        lines_count_ok(lines@),
        state.top_line + state.cursor_line <= usize::MAX,
    ensures
        r == visual_lines_in(
            lines@,
            state.top_line as int,
            if state.spec_absolute_line() < lines@.len() { state.spec_absolute_line() } else { lines@.len() as int },
            text_width,
            state.settings.tab_width,
            state.spec_wrapping(),
        ) + cursor_segment(
            lines@,
            state.spec_absolute_line(),
            state.cursor_col as int,
            text_width,
            state.settings.tab_width,
            state.spec_wrapping(),
        ),
{
    let wrapping = state.is_line_wrapping_enabled();
    let tab_w = state.settings.tab_width;
    let abs = state.absolute_line();
    let end = if abs < lines.len() { abs } else { lines.len() };
    let mut visual_line = sum_visual_lines(lines, state.top_line, end, text_width, tab_w, wrapping);
    if wrapping && text_width as usize > 0 && abs < lines.len() {
        assert(text_fits(lines@[abs as int]@, tab_w));
        let wrap_points = calculate_word_wrap_points(lines[abs].as_str(), text_width as usize, tab_w);
        let ghost p = as_ints(wrap_points@);
        let mut k: usize = 0;
        while k < wrap_points.len() && state.cursor_col >= wrap_points[k]
            invariant
                k <= wrap_points@.len(),
                p == as_ints(wrap_points@),
                first_point_above(p, state.cursor_col as int, 0) == first_point_above(p, state.cursor_col as int, k as int),
            decreases wrap_points@.len() - k,
        {
            k = k + 1;
        }
        proof {
            lemma_valid_points_len(p, lines@[abs as int]@.len() as int);
            assert(first_point_above(p, state.cursor_col as int, k as int) == k);
            assert(k <= lines@[abs as int]@.len());
            assert(lines@[abs as int]@.len() * (tab_w + 3) <= usize::MAX);
            assert(lines@[abs as int]@.len() <= usize::MAX / 3) by (nonlinear_arith)
                requires
                    lines@[abs as int]@.len() * (tab_w + 3) <= usize::MAX,
            ;
        }
        visual_line = visual_line + k;
    }
    visual_line
}

// ---------------------------------------------------------------------------
// Column / layout helpers
// ---------------------------------------------------------------------------

/// Gutter width for the configured number of digits (digits plus one
/// separator column; 0 when line numbers are off).
pub open spec fn gutter_width(digits: u8) -> int {
    if digits == 0 { 0 } else { digits + 1 }
}

/// Width of the line-number gutter (0 when line numbers are disabled).
pub fn line_number_width(settings: &Settings) -> (r: u16)
    ensures
        r == gutter_width(settings.appearance.line_number_digits),
{
    if settings.appearance.line_number_digits == 0 {
        0
    } else {
        settings.appearance.line_number_digits as u16 + 1
    }
}

/// Number of decimal digits of `n` (1 for 0).
pub open spec fn decimal_digits(n: nat) -> nat
    decreases n,
{
    if n < 10 {
        1
    } else {
        1 + decimal_digits(n / 10)
    }
}

/// Gutter width needed for a document of `total_lines` lines: enough digits
/// for the line count, at least the configured number, plus a separator.
pub fn line_number_display_width(settings: &Settings, total_lines: usize) -> (r: u16)
    ensures
        settings.appearance.line_number_digits == 0 ==> r == 0,
        settings.appearance.line_number_digits != 0 ==> r == (if decimal_digits(total_lines as nat)
            >= settings.appearance.line_number_digits { decimal_digits(total_lines as nat) } else {
            settings.appearance.line_number_digits as nat
        }) + 1,
{
    if settings.appearance.line_number_digits == 0 {
        return 0;
    }
    let mut digits: usize = 1;
    let mut rest = total_lines;
    while rest >= 10
        invariant
            1 <= digits,
            digits <= pow10((digits - 1) as nat),
            rest <= total_lines,
            digits + decimal_digits(rest as nat) - 1 == decimal_digits(total_lines as nat),
            rest as nat * pow10((digits - 1) as nat) <= total_lines as nat,
        decreases rest,
    {
        proof { lemma_digits_step(rest as nat, (digits - 1) as nat, total_lines as nat); }
        rest = rest / 10;
        digits = digits + 1;
    }
    proof {
        lemma_decimal_digits_bound(total_lines as nat);
    }
    let configured = settings.appearance.line_number_digits as usize;
    let display_width = if digits >= configured { digits } else { configured };
    (display_width + 1) as u16
}

/// 10 to the power `k`.
pub open spec fn pow10(k: nat) -> nat
    decreases k,
{
    if k == 0 { 1 } else { 10 * pow10((k - 1) as nat) }
}

proof fn lemma_digits_step(rest: nat, k: nat, total: nat)
    requires
        rest >= 10,
        rest * pow10(k) <= total,
        k + 1 <= pow10(k),
    ensures
        (rest / 10) * pow10(k + 1) <= total,
        k + 2 <= pow10(k + 1),
        pow10(k) + 1 <= total,
{
    assert(pow10(k + 1) == 10 * pow10(k));
    assert((rest / 10) * (10 * pow10(k)) <= rest * pow10(k)) by (nonlinear_arith)
        requires
            rest >= 10,
    ;
    assert(10 * pow10(k) <= rest * pow10(k)) by (nonlinear_arith)
        requires
            rest >= 10,
    ;
    lemma_pow10_grows(k);
}

/// A `usize` has at most 20 decimal digits.
proof fn lemma_decimal_digits_bound(n: nat)
    requires
        n <= usize::MAX,
    ensures
        decimal_digits(n) <= 20,
{
    reveal_with_fuel(pow10, 21);
    assert(pow10(20) == 100000000000000000000nat);
    lemma_digits_below_pow(n, 20);
}

proof fn lemma_digits_below_pow(n: nat, d: nat)
    requires
        n < pow10(d),
        d >= 1,
    ensures
        decimal_digits(n) <= d,
    decreases d,
{
    if n >= 10 {
        assert(pow10(d) == 10 * pow10((d - 1) as nat));
        assert(n / 10 < pow10((d - 1) as nat)) by (nonlinear_arith)
            requires
                n < 10 * pow10((d - 1) as nat),
        ;
        if d == 1 {
            assert(pow10(0) == 1);
        } else {
            lemma_digits_below_pow(n / 10, (d - 1) as nat);
        }
    }
}

proof fn lemma_pow10_grows(k: nat)
    ensures
        pow10(k) >= 1,
    decreases k,
{
    if k > 0 {
        lemma_pow10_grows((k - 1) as nat);
    }
}

proof fn lemma_pow10_mono(a: nat, b: nat)
    requires
        a <= b,
    ensures
        pow10(a) <= pow10(b),
    decreases b,
{
    if a < b {
        lemma_pow10_mono(a, (b - 1) as nat);
        lemma_pow10_grows((b - 1) as nat);
    }
}

/// Usable text width for a terminal `term_width` columns wide: minus the
/// gutter and the always-reserved scrollbar column (never below 0).
pub open spec fn text_area_width(term_width: u16, gutter: int) -> int {
    let a = if term_width >= gutter { term_width - gutter } else { 0 };
    if a >= 1 { a - 1 } else { 0 }
}

/// Usable text width: terminal width minus the gutter and the scrollbar.
pub fn calculate_text_width(state: &FileViewerState, _lines: &[String], _visible_lines: usize) -> (r: u16)
    ensures
        r == text_area_width(state.term_width, gutter_width(state.settings.appearance.line_number_digits)),
{
    state.term_width.saturating_sub(line_number_width(state.settings)).saturating_sub(1)
}

// ---------------------------------------------------------------------------
// Resize helper
// ---------------------------------------------------------------------------

/// `(top_line, relative_cursor_line)` after a resize: the old top line
/// (clamped to the document) unless the cursor falls outside the
/// `visible_lines`-high viewport, in which case the viewport moves just far
/// enough to show it.
pub open spec fn resized_view(prev_top: int, cursor: int, visible: int, total: int) -> (int, int) {
    if total == 0 {
        (0, 0)
    } else {
        let vl = if visible >= 1 { visible } else { 1 };
        let t0 = if prev_top < total - 1 { prev_top } else { total - 1 };
        let t1 = if cursor < t0 { cursor } else { t0 };
        let t2 = if cursor >= t1 + vl { if cursor - (vl - 1) >= 0 { cursor - (vl - 1) } else { 0 } } else { t1 };
        let t3 = if t2 < total - 1 { t2 } else { total - 1 };
        (t3, if cursor >= t3 { cursor - t3 } else { 0 })
    }
}

/// Recalculate `(top_line, relative_cursor_line)` after a terminal resize so
/// the cursor stays visible without jumping to the top.
pub fn adjust_view_for_resize(
    prev_top_line: usize,
    absolute_cursor_line: usize,
    visible_lines: usize,
    total_lines: usize,
) -> (r: (usize, usize))
    requires
        absolute_cursor_line + (if visible_lines >= 1 { visible_lines } else { 1 }) <= usize::MAX,
    ensures
        (r.0 as int, r.1 as int) == resized_view(
            prev_top_line as int,
            absolute_cursor_line as int,
            visible_lines as int,
            total_lines as int,
        ),
{
    if total_lines == 0 {
        return (0, 0);
    }
    let vl = if visible_lines >= 1 { visible_lines } else { 1 };
    let mut new_top = if prev_top_line < total_lines - 1 { prev_top_line } else { total_lines - 1 };
    if absolute_cursor_line < new_top {
        new_top = absolute_cursor_line;
    }
    if absolute_cursor_line >= new_top + vl {
        new_top = absolute_cursor_line.saturating_sub(vl - 1);
    }
    new_top = if new_top < total_lines - 1 { new_top } else { total_lines - 1 };
    let rel_cursor = absolute_cursor_line.saturating_sub(new_top);
    (new_top, rel_cursor)
}

// ---------------------------------------------------------------------------
// Screen position to document position
// ---------------------------------------------------------------------------

/// `r` is the character index of `line` at which display column `vc` is
/// reached (see `visual_col_to_char_index`).
pub open spec fn is_col_index(line: Seq<char>, vc: int, tab: int, r: int) -> bool {
    &&& 0 <= r <= line.len()
    &&& forall|j: nat| j < r ==> prefix_width(line, j, tab) < vc
    &&& r < line.len() ==> prefix_width(line, r as nat, tab) >= vc
}

/// Display column of screen column `text_col` on wrap segment `line_offset`
/// of `line`: with wrapping, counted from the segment's first character;
/// without, shifted by the horizontal scroll.
pub open spec fn target_visual_col(line: Seq<char>, line_offset: int, text_col: int, text_width: int, tab: int, wrapping: bool, h_scroll: int) -> int {
    if wrapping {
        let wp = word_wrap_points(line, text_width, tab);
        if line_offset == 0 || wp.len() == 0 {
            text_col
        } else {
            prefix_width(line, wp[line_offset - 1] as nat, tab) + text_col
        }
    } else {
        h_scroll + text_col
    }
}

/// Lines are short enough that a display column plus a screen column fits
/// in `usize`.
pub open spec fn lines_measurable(lines: Seq<String>, tab: usize) -> bool {
    &&& lines_fit(lines, tab)
    &&& forall|i: int| 0 <= i < lines.len() ==> #[trigger] lines[i]@.len() * (tab + 3) <= usize::MAX - 65536
}

/// Character index for screen column `text_col` on wrap segment
/// `line_offset` of `lines[logical]` (see `target_visual_col`).
fn resolve_visual_col(
    lines: &[String],
    logical: usize,
    line_offset: usize,
    text_col: usize,
    text_width: usize,
    tab_width: usize,
    state: &FileViewerState,
) -> (r: usize)
    requires
        logical < lines@.len(),
        lines_measurable(lines@, tab_width),
        text_col <= 65535,
        state.horizontal_scroll_offset <= usize::MAX - 65536,
        state.spec_wrapping() ==> line_offset <= word_wrap_points(lines@[logical as int]@, text_width as int, tab_width as int).len(),
    ensures
        is_col_index(lines@[logical as int]@, target_visual_col(lines@[logical as int]@, line_offset as int, text_col as int,
            text_width as int, tab_width as int, state.spec_wrapping(), state.horizontal_scroll_offset as int), tab_width as int, r as int),
{
    let line = lines[logical].as_str();
    assert(text_fits(line@, tab_width));
    assert(line@.len() * (tab_width + 3) <= usize::MAX - 65536);
    let visual_col = if state.is_line_wrapping_enabled() {
        let wrap_points = calculate_word_wrap_points(line, text_width, tab_width);
        if line_offset == 0 || wrap_points.len() == 0 {
            text_col
        } else {
            assert(as_ints(wrap_points@)[line_offset - 1] == wrap_points@[line_offset - 1]);
            let w = visual_width_up_to(line, wrap_points[line_offset - 1], tab_width);
            proof {
                lemma_valid_points_len(as_ints(wrap_points@), line@.len() as int);
                assert(wrap_points@[line_offset - 1] < line@.len()) by {
                    assert(valid_wrap_points(as_ints(wrap_points@), 0, line@.len() as int));
                }
            }
            w + text_col
        }
    } else {
        state.horizontal_scroll_offset + text_col
    };
    visual_col_to_char_index(line, visual_col, tab_width)
}

/// The character index at which display column `vc` of `line` is reached.
pub open spec fn col_index_of(line: Seq<char>, vc: int, tab: int) -> int {
    choose|r: int| is_col_index(line, vc, tab, r)
}

/// There is one such index.
pub(crate) proof fn lemma_col_index_unique(line: Seq<char>, vc: int, tab: int, r: int)
    requires
        is_col_index(line, vc, tab, r),
    ensures
        col_index_of(line, vc, tab) == r,
{
    let c = col_index_of(line, vc, tab);
    assert(is_col_index(line, vc, tab, c));
    if c < r {
        assert(prefix_width(line, c as nat, tab) < vc);
    } else if r < c {
        assert(prefix_width(line, r as nat, tab) < vc);
    }
}

/// Walk the candidate lines `cands` down the screen: the first one whose
/// visual lines reach screen row `target`, with the row within it.
pub open spec fn locate(cands: Seq<usize>, lines: Seq<String>, tw: u16, tab: usize, wrapping: bool, target: int) -> Option<(usize, int)>
    decreases cands.len(),
{
    if cands.len() == 0 {
        None
    } else {
        let vl = visual_lines_of(lines, cands[0] as int, tw, tab, wrapping);
        if vl > target {
            Some((cands[0], target))
        } else {
            locate(cands.drop_first(), lines, tw, tab, wrapping, target - vl)
        }
    }
}

/// Lines `top..len` in order.
pub open spec fn lines_from(top: int, len: int) -> Seq<usize> {
    Seq::new(if top < len { (len - top) as nat } else { 0 }, |i: int| (top + i) as usize)
}

/// Number of leading entries of `v` below `top`.
pub open spec fn count_below(v: Seq<usize>, top: int) -> int
    decreases v.len(),
{
    if v.len() == 0 || v[0] >= top { 0 } else { 1 + count_below(v.drop_first(), top) }
}

/// Document position for screen row `visual_line` walking `cands` from the
/// top of the screen, and screen column `text_col`; a click past the end of
/// a wrap segment is pulled back to it when `clamp` is set.
pub open spec fn position_for(cands: Seq<usize>, lines: Seq<String>, state: FileViewerState, tw: u16, visual_line: int, text_col: int, clamp: bool) -> Option<(usize, usize)> {
    let tab = state.settings.tab_width;
    let wrapping = state.spec_wrapping();
    match locate(cands, lines, tw, tab, wrapping, visual_line) {
        None => None,
        Some((l, off)) => {
            let line = lines[l as int]@;
            let vc = target_visual_col(line, off, text_col, tw as int, tab as int, wrapping, state.horizontal_scroll_offset as int);
            let c = col_index_of(line, vc, tab as int);
            let wp = word_wrap_points(line, tw as int, tab as int);
            let c2 = if clamp && wrapping && off < wp.len() && c > wp[off] { wp[off] } else { c };
            Some((l, c2 as usize))
        },
    }
}

/// A row within a wrapped line is at most its number of wrap points.
proof fn lemma_offset_in_points(lines: Seq<String>, idx: int, tw: u16, tab: usize, off: int)
    requires
        0 <= idx < lines.len(),
        0 <= off < wrapped_line_count(lines, idx, tw, tab, true),
        text_fits(lines[idx]@, tab),
    ensures
        off <= word_wrap_points(lines[idx]@, tw as int, tab as int).len(),
{
    let line = lines[idx]@;
    let wp = word_wrap_points(line, tw as int, tab as int);
    if tw != 0 {
        if line.len() == 0 {
            assert(wp.len() == 0);
        } else {
            lemma_wrap_points_valid(line, 0, tw - 1, (tw / 2) as int, tab as int);
            lemma_valid_points_len(wp, line.len() as int);
            assert(line.len() <= usize::MAX) by (nonlinear_arith)
                requires
                    line.len() * (tab + 3) <= usize::MAX,
            ;
        }
        let y: usize = (wp.len() + 1) as usize;
        assert((y as u16) <= y) by (bit_vector);
    }
}

/// Walk `cands` from the top of the screen to screen row `visual_line` and
/// map the click at screen column `text_col` into that line.
fn walk_to_position(
    cands: &Vec<usize>,
    from: usize,
    lines: &[String],
    state: &FileViewerState,
    text_width: u16,
    visual_line: usize,
    text_col: usize,
    clamp: bool,
) -> (r: Option<(usize, usize)>)
    requires
        from <= cands@.len(),
        forall|i: int| 0 <= i < cands@.len() ==> cands@[i] < lines@.len(),
        lines_measurable(lines@, state.settings.tab_width),
        text_col <= 65535,
        state.horizontal_scroll_offset <= usize::MAX - 65536,
    ensures
        r == position_for(cands@.skip(from as int), lines@, *state, text_width, visual_line as int, text_col as int, clamp),
{
    let tab_width = state.settings.tab_width;
    let wrapping = state.is_line_wrapping_enabled();
    let ghost cs = cands@.skip(from as int);
    let mut i = from;
    let mut current_vl: usize = 0;
    assert(cands@.skip(i as int) =~= cs);
    while i < cands.len()
        invariant
            from <= i <= cands@.len(),
            cs == cands@.skip(from as int),
            forall|k: int| 0 <= k < cands@.len() ==> cands@[k] < lines@.len(),
            lines_measurable(lines@, tab_width),
            tab_width == state.settings.tab_width,
            wrapping == state.spec_wrapping(),
            text_col <= 65535,
            state.horizontal_scroll_offset <= usize::MAX - 65536,
            current_vl <= visual_line,
            locate(cands@.skip(i as int), lines@, text_width, tab_width, wrapping, visual_line - current_vl)
                == locate(cs, lines@, text_width, tab_width, wrapping, visual_line as int),
        decreases cands@.len() - i,
    {
        let logical = cands[i];
        let vl = visual_lines_for(lines, logical, text_width, tab_width, wrapping);
        assert(cands@.skip(i as int)[0] == logical);
        assert(cands@.skip(i as int).drop_first() =~= cands@.skip(i + 1));
        if vl > visual_line - current_vl {
            let off = visual_line - current_vl;
            proof {
                if wrapping {
                    lemma_offset_in_points(lines@, logical as int, text_width, tab_width, off as int);
                }
            }
            let c = resolve_visual_col(lines, logical, off, text_col, text_width as usize, tab_width, state);
            proof {
                lemma_col_index_unique(lines@[logical as int]@, target_visual_col(lines@[logical as int]@, off as int, text_col as int,
                    text_width as int, tab_width as int, wrapping, state.horizontal_scroll_offset as int), tab_width as int, c as int);
            }
            if clamp && wrapping {
                let line = lines[logical].as_str();
                assert(text_fits(line@, tab_width));
                let wrap_points = calculate_word_wrap_points(line, text_width as usize, tab_width);
                if off < wrap_points.len() && c > wrap_points[off] {
                    assert(as_ints(wrap_points@)[off as int] == wrap_points@[off as int]);
                    return Some((logical, wrap_points[off]));
                }
            }
            return Some((logical, c));
        }
        current_vl = current_vl + vl;
        i = i + 1;
    }
    None
}

/// Map a click at screen row `visual_line`, terminal column `column` to a
/// document position `(line, character index)`; `None` on the gutter, on the
/// scrollbar column, below the last line, or (in filter mode) where the
/// filter cannot be computed.  In filter mode only the filtered lines are on
/// screen; otherwise the lines from `top_line` on, and a click past the end
/// of a wrap segment lands at the segment's end.
pub fn visual_to_logical_position(
    state: &FileViewerState,
    lines: &[String],
    visual_line: usize,
    column: u16,
    visible_lines: usize,
) -> (r: Option<(usize, usize)>)
    requires
        lines_measurable(lines@, state.settings.tab_width),
        state.horizontal_scroll_offset <= usize::MAX - 65536,
    ensures
        ({
            let lnw = gutter_width(state.settings.appearance.line_number_digits);
            let last_col = if state.term_width >= 1 { state.term_width - 1 } else { 0 };
            let tw = text_area_width(state.term_width, lnw) as u16;
            let tc = column - lnw;
            let filter = state.filter_active && state.last_search_pattern is Some;
            if column < lnw || column >= last_col {
                r is None
            } else if filter {
                match filtered_lines(lines@, state.last_search_pattern->0@, state.find_regex_mode, state.find_scope,
                    state.filter_context_before, state.filter_context_after) {
                    None => r is None,
                    Some(shown) => exists|v: Seq<usize>| set_of(v) == shown && increasing(v)
                        && r == position_for(v.skip(count_below(v, state.top_line as int)), lines@, *state, tw, visual_line as int, tc, false),
                }
            } else {
                r == position_for(lines_from(state.top_line as int, lines@.len() as int), lines@, *state, tw, visual_line as int, tc, true)
            }
        }),
{
    let line_num_width = line_number_width(state.settings);
    let text_width = calculate_text_width(state, lines, visible_lines);
    if column < line_num_width || column >= state.term_width.saturating_sub(1) {
        return None;
    }
    let text_col = (column - line_num_width) as usize;
    if state.filter_active && state.last_search_pattern.is_some() {
        let pattern = match &state.last_search_pattern {
            Some(p) => p,
            None => return None,
        };
        let lv: Vec<String> = copy_lines_vec(lines);
        let filtered = match get_lines_with_matches_checked(&lv, pattern.as_str(), state.find_regex_mode, state.find_scope,
            state.filter_context_before, state.filter_context_after) {
            Some(v) => v,
            None => return None,
        };
        proof {
            lemma_filtered_in_document(lv@, pattern@, state.find_regex_mode, state.find_scope,
                state.filter_context_before, state.filter_context_after, filtered@);
        }
        let mut start: usize = 0;
        assert(filtered@.skip(0) =~= filtered@);
        while start < filtered.len() && filtered[start] < state.top_line
            invariant
                start <= filtered@.len(),
                count_below(filtered@.skip(start as int), state.top_line as int) + start == count_below(filtered@, state.top_line as int),
            decreases filtered@.len() - start,
        {
            assert(filtered@.skip(start as int)[0] == filtered@[start as int]);
            assert(filtered@.skip(start as int).drop_first() =~= filtered@.skip(start + 1));
            start = start + 1;
        }
        proof {
            if start < filtered@.len() {
                assert(filtered@.skip(start as int)[0] == filtered@[start as int]);
            }
            assert(count_below(filtered@.skip(start as int), state.top_line as int) == 0);
            assert(start == count_below(filtered@, state.top_line as int));
        }
        let r = walk_to_position(&filtered, start, lines, state, text_width, visual_line, text_col, false);
        proof {
            let tw = text_area_width(state.term_width, gutter_width(state.settings.appearance.line_number_digits)) as u16;
            assert(text_width == tw);
            assert(set_of(filtered@) == set_of(filtered@) && increasing(filtered@)
                && r == position_for(filtered@.skip(count_below(filtered@, state.top_line as int)), lines@, *state, tw,
                    visual_line as int, text_col as int, false));
        }
        return r;
    }
    let mut cands: Vec<usize> = Vec::new();
    let mut l = state.top_line;
    while l < lines.len()
        invariant
            state.top_line <= l || lines@.len() <= state.top_line,
            l >= state.top_line,
            l <= lines@.len() || l == state.top_line,
            cands@ =~= lines_from(state.top_line as int, l as int),
        decreases lines@.len() - l,
    {
        cands.push(l);
        l = l + 1;
        assert(cands@ =~= lines_from(state.top_line as int, l as int));
    }
    assert(cands@ =~= lines_from(state.top_line as int, lines@.len() as int));
    assert(cands@.skip(0) =~= cands@);
    walk_to_position(&cands, 0, lines, state, text_width, visual_line, text_col, true)
}

/// A copy of the lines as a vector.
pub(crate) fn copy_lines_vec(lines: &[String]) -> (r: Vec<String>)
    ensures
        r@ == lines@,
{
    let mut r: Vec<String> = Vec::new();
    let mut i: usize = 0;
    while i < lines.len()
        invariant
            i <= lines@.len(),
            r@ == lines@.take(i as int),
        decreases lines@.len() - i,
    {
        r.push(lines[i].clone());
        i = i + 1;
        assert(r@ =~= lines@.take(i as int));
    }
    assert(lines@.take(lines@.len() as int) =~= lines@);
    r
}

// ---------------------------------------------------------------------------
// Wrapped segments fit the text area
// ---------------------------------------------------------------------------

/// A character never takes negative columns.
proof fn lemma_char_cols_nonneg(c: char, col: int, tab: int)
    requires
        tab >= 1,
    ensures
        char_cols(c, col, tab) >= 0,
{
    if c == '\t' {
        assert(col % tab < tab) by (nonlinear_arith)
            requires
                tab >= 1;
    }
}

/// A longer piece of a segment is at least as wide.
proof fn lemma_seg_width_grows(s: Seq<char>, lo: int, a: nat, b: nat, tab: int)
    requires
        tab >= 1,
        a <= b,
    ensures
        seg_width(s, lo, a, tab) <= seg_width(s, lo, b, tab),
    decreases b - a,
{
    if a < b {
        lemma_seg_width_grows(s, lo, a, (b - 1) as nat, tab);
        lemma_char_cols_nonneg(s[lo + b - 1], seg_width(s, lo, (b - 1) as nat, tab), tab);
    }
}

/// Up to the first overflow, every piece of the segment fits.
proof fn lemma_first_overflow_fits(s: Seq<char>, start: int, from: int, usable: int, tab: int)
    requires
        start <= from,
    ensures
        from < s.len() ==> from <= first_overflow(s, start, from, usable, tab) <= s.len(),
        forall|j: int| from <= j < first_overflow(s, start, from, usable, tab)
            ==> #[trigger] seg_width(s, start, (j - start + 1) as nat, tab) <= usable,
    decreases s.len() - from,
{
    if from >= s.len() {
    } else if seg_width(s, start, (from - start + 1) as nat, tab) > usable {
    } else {
        lemma_first_overflow_fits(s, start, from + 1, usable, tab);
        if from + 1 >= s.len() {
            assert(first_overflow(s, start, from + 1, usable, tab) == s.len());
        }
    }
}

/// The last white space found lies in the range searched.
proof fn lemma_last_ws_in_range(s: Seq<char>, lo: int, hi: int)
    ensures
        last_ws(s, lo, hi) matches Some(k) ==> lo <= k < hi && is_white_space(s[k]),
    decreases hi - lo,
{
    if hi > lo && !is_white_space(s[hi - 1]) {
        lemma_last_ws_in_range(s, lo, hi - 1);
    }
}

/// A wrap after `start` ends a segment that is one character or fits in
/// `usable` columns.
proof fn lemma_next_wrap_fits(s: Seq<char>, start: int, usable: int, max_word: int, tab: int)
    requires
        tab >= 1,
        0 <= start,
        next_wrap(s, start, usable, max_word, tab) is Some,
    ensures
        ({
            let bp = next_wrap(s, start, usable, max_word, tab)->0;
            &&& start < bp < s.len()
            &&& bp - start > 1 ==> range_width(s, start, bp, tab) <= usable
        }),
{
    let bp = next_wrap(s, start, usable, max_word, tab)->0;
    let i = first_overflow(s, start, start, usable, tab);
    lemma_first_overflow_fits(s, start, start, usable, tab);
    lemma_last_ws_in_range(s, start, i);
    if bp - start > 1 {
        assert(start < i && bp <= i);
        lemma_seg_width_grows(s, start, (bp - start) as nat, (i - start) as nat, tab);
        assert(seg_width(s, start, ((i - 1) - start + 1) as nat, tab) <= usable);
    }
}

/// Each wrap point comes from the one before it (the first from `start`).
proof fn lemma_wrap_points_chain(s: Seq<char>, start: int, usable: int, max_word: int, tab: int, j: int)
    requires
        0 <= j < wrap_points_from(s, start, usable, max_word, tab).len(),
    ensures
        ({
            let p = wrap_points_from(s, start, usable, max_word, tab);
            let prev = if j == 0 { start } else { p[j - 1] };
            next_wrap(s, prev, usable, max_word, tab) == Some(p[j]) && 0 <= prev
        }),
    decreases s.len() - start,
{
    let p = wrap_points_from(s, start, usable, max_word, tab);
    let bp = next_wrap(s, start, usable, max_word, tab)->0;
    let rest = wrap_points_from(s, bp, usable, max_word, tab);
    assert(p == seq![bp] + rest);
    if j > 0 {
        lemma_wrap_points_chain(s, bp, usable, max_word, tab, j - 1);
        if j > 1 {
            assert(p[j - 1] == rest[j - 2]);
        }
        assert(p[j] == rest[j - 1]);
    }
}

/// Wrapped segments fit: the piece of `s` that ends at wrap point `j` (and
/// starts at the wrap point before it, or at the line's start) is at most
/// `text_width - 1` columns wide, unless it is a single character wider
/// than that.
pub proof fn lemma_wrap_segments_fit(s: Seq<char>, text_width: int, tab: int, j: int)
    requires
        tab >= 1,
        text_width >= 0,
        0 <= j < word_wrap_points(s, text_width, tab).len(),
    ensures
        ({
            let p = word_wrap_points(s, text_width, tab);
            let start = if j == 0 { 0 } else { p[j - 1] };
            &&& start < p[j]
            &&& p[j] - start > 1 ==> range_width(s, start, p[j], tab) <= text_width - 1
        }),
{
    let usable = if text_width >= 1 { text_width - 1 } else { 0 };
    lemma_wrap_points_chain(s, 0, usable, text_width / 2, tab, j);
    let p = wrap_points_from(s, 0, usable, text_width / 2, tab);
    assert(text_width >= 1 && s.len() > 0);
    assert(word_wrap_points(s, text_width, tab) == p);
    let prev = if j == 0 { 0 } else { p[j - 1] };
    lemma_next_wrap_fits(s, prev, usable, text_width / 2, tab);
    assert(next_wrap(s, prev, usable, text_width / 2, tab)->0 == p[j]);
}

// ---------------------------------------------------------------------------
// A click lands on the character drawn under it
// ---------------------------------------------------------------------------

/// The least index at or after `k` whose prefix reaches display column `vc`
/// (or the line's end) satisfies `is_col_index`.
proof fn col_index_witness(line: Seq<char>, vc: int, tab: int, k: int) -> (r: int)
    requires
        0 <= k <= line.len(),
        forall|j: nat| j < k ==> prefix_width(line, j, tab) < vc,
    ensures
        is_col_index(line, vc, tab, r),
    decreases line.len() - k,
{
    if k == line.len() {
        k
    } else if prefix_width(line, k as nat, tab) >= vc {
        k
    } else {
        assert forall|j: nat| j < k + 1 implies prefix_width(line, j, tab) < vc by {
            if j < k {
            }
        }
        col_index_witness(line, vc, tab, k + 1)
    }
}

/// A click lands on the character drawn under it: with wrapping off, the
/// column a click maps to is the character at which the line's display
/// width reaches the horizontal scroll plus the click's column within the
/// text area; every character before it ends left of that column, and the
/// character itself (when there is one) reaches it.
pub proof fn lemma_click_lands_under_mouse(cands: Seq<usize>, lines: Seq<String>, state: FileViewerState, tw: u16,
    visual_line: int, text_col: int, clamp: bool)
    requires
        !state.spec_wrapping(),
        position_for(cands, lines, state, tw, visual_line, text_col, clamp) is Some,
        forall|i: int| 0 <= i < lines.len() ==> #[trigger] lines[i]@.len() <= usize::MAX,
        forall|i: int| 0 <= i < cands.len() ==> #[trigger] cands[i] < lines.len(),
    ensures
        ({
            let (l, c) = position_for(cands, lines, state, tw, visual_line, text_col, clamp)->0;
            let line = lines[l as int]@;
            let tab = state.settings.tab_width as int;
            let vc = state.horizontal_scroll_offset + text_col;
            &&& c <= line.len()
            &&& forall|j: nat| j < c ==> prefix_width(line, j, tab) < vc
            &&& c < line.len() ==> prefix_width(line, c as nat, tab) >= vc
        }),
{
    let tab = state.settings.tab_width;
    let (l, off) = locate(cands, lines, tw, tab, false, visual_line)->0;
    lemma_locate_in(cands, lines, tw, tab, visual_line);
    let line = lines[l as int]@;
    let vc = target_visual_col(line, off, text_col, tw as int, tab as int, false, state.horizontal_scroll_offset as int);
    assert(vc == state.horizontal_scroll_offset + text_col);
    let w = col_index_witness(line, vc, tab as int, 0);
    lemma_col_index_unique(line, vc, tab as int, w);
}

/// The line a visual row is found on is one of the candidates.
proof fn lemma_locate_in(cands: Seq<usize>, lines: Seq<String>, tw: u16, tab: usize, target: int)
    requires
        locate(cands, lines, tw, tab, false, target) is Some,
        forall|i: int| 0 <= i < cands.len() ==> #[trigger] cands[i] < lines.len(),
    ensures
        (locate(cands, lines, tw, tab, false, target)->0).0 < lines.len(),
    decreases cands.len(),
{
    if cands.len() > 0 {
        let vl = visual_lines_of(lines, cands[0] as int, tw, tab, false);
        if vl <= target {
            assert forall|i: int| 0 <= i < cands.drop_first().len() implies #[trigger] cands.drop_first()[i] < lines.len() by {
                assert(cands.drop_first()[i] == cands[i + 1]);
            }
            lemma_locate_in(cands.drop_first(), lines, tw, tab, target - vl);
        }
    }
}

// ---------------------------------------------------------------------------
// Wrapping at word boundaries
// ---------------------------------------------------------------------------

/// The first overflow scanned from `from` is the index `i` at which the
/// segment from `start` first gets wider than `usable`.
proof fn lemma_first_overflow_is(s: Seq<char>, start: int, from: int, usable: int, tab: int, i: int)
    requires
        start <= from <= i < s.len(),
        range_width(s, start, i + 1, tab) > usable,
        forall|m: int| from <= m < i ==> #[trigger] range_width(s, start, m + 1, tab) <= usable,
    ensures
        first_overflow(s, start, from, usable, tab) == i,
    decreases i - from,
{
    if from < i {
        assert(range_width(s, start, from + 1, tab) <= usable);
        lemma_first_overflow_is(s, start, from + 1, usable, tab, i);
    }
}

/// The last white space of `s[lo..hi]` is the white space at `k` when none
/// follows it before `hi`.
proof fn lemma_last_ws_is(s: Seq<char>, lo: int, hi: int, k: int)
    requires
        lo <= k < hi <= s.len(),
        is_white_space(s[k]),
        forall|m: int| k < m < hi ==> !is_white_space(#[trigger] s[m]),
    ensures
        last_ws(s, lo, hi) == Some(k),
    decreases hi - k,
{
    if hi - 1 > k {
        assert(!is_white_space(s[hi - 1]));
        lemma_last_ws_is(s, lo, hi - 1, k);
    }
}

/// The run of non-white-space characters that ends at `m` starts just
/// after the white space at `k`.
proof fn lemma_run_start_is(s: Seq<char>, lo: int, m: int, k: int)
    requires
        lo <= k < m <= s.len(),
        is_white_space(s[k]),
        forall|t: int| k < t < m ==> !is_white_space(#[trigger] s[t]),
    ensures
        run_start(s, lo, m) == k + 1,
    decreases m - k,
{
    if m > k + 1 {
        assert(!is_white_space(s[m - 1]));
        lemma_run_start_is(s, lo, m - 1, k);
    }
}

/// Wrapping never splits a short word: when the segment that starts at a
/// wrap point (or the line's start) first overflows the `text_width - 1`
/// usable columns at index `i`, and it holds a white space after its first
/// character whose following word up to `i` is at most `text_width / 2`
/// columns wide, the next wrap point is just after the last such white
/// space (`start` is the segment's first index).
pub proof fn lemma_wrap_at_word_boundary(s: Seq<char>, text_width: int, tab: int, j: int, start: int, i: int, k: int)
    requires
        tab >= 1,
        text_width >= 1,
        0 <= j < word_wrap_points(s, text_width, tab).len(),
        start == if j == 0 { 0 } else { word_wrap_points(s, text_width, tab)[j - 1] },
        start <= i < s.len(),
        range_width(s, start, i + 1, tab) > text_width - 1,
        forall|m: int| start <= m < i ==> #[trigger] range_width(s, start, m + 1, tab) <= text_width - 1,
        start < k < i,
        is_white_space(s[k]),
        forall|m: int| k < m < i ==> !is_white_space(#[trigger] s[m]),
        range_width(s, k + 1, i, tab) <= text_width / 2,
    ensures
        word_wrap_points(s, text_width, tab)[j] == k + 1,
{
    let usable = text_width - 1;
    let mw = text_width / 2;
    let p = wrap_points_from(s, 0, usable, mw, tab);
    assert(s.len() > 0);
    assert(word_wrap_points(s, text_width, tab) == p);
    lemma_wrap_points_chain(s, 0, usable, mw, tab, j);
    lemma_first_overflow_is(s, start, start, usable, tab, i);
    lemma_last_ws_is(s, start, i, k);
    if !is_white_space(s[i - 1]) {
        assert(last_non_ws(s, start, i) == Some(i - 1));
        lemma_run_start_is(s, start, i - 1, k);
        assert(last_word_start(s, start, i) == k + 1);
    } else {
        assert(k == i - 1);
    }
    assert(segment_break(s, start, usable, mw, tab) == Some(k + 1));
}

/// The wrap points after the `j`-th are those from that point on.
proof fn lemma_wrap_points_suffix(s: Seq<char>, start: int, usable: int, max_word: int, tab: int, j: int)
    requires
        1 <= j <= wrap_points_from(s, start, usable, max_word, tab).len(),
    ensures
        ({
            let p = wrap_points_from(s, start, usable, max_word, tab);
            p.skip(j) == wrap_points_from(s, p[j - 1], usable, max_word, tab)
        }),
    decreases s.len() - start,
{
    let p = wrap_points_from(s, start, usable, max_word, tab);
    let bp = next_wrap(s, start, usable, max_word, tab)->0;
    let rest = wrap_points_from(s, bp, usable, max_word, tab);
    assert(p == seq![bp] + rest);
    if j == 1 {
        assert(p.skip(1) =~= rest);
    } else {
        lemma_wrap_points_suffix(s, bp, usable, max_word, tab, j - 1);
        assert(p.skip(j) =~= rest.skip(j - 1));
        assert(p[j - 1] == rest[j - 2]);
    }
}

/// A line that overflows is wrapped: when the text from a wrap point (or
/// the line's start) onwards gets wider than the `text_width - 1` usable
/// columns at some character after the segment's first, there is a next
/// wrap point.
pub proof fn lemma_overflow_wraps(s: Seq<char>, text_width: int, tab: int, j: int, start: int, i: int)
    requires
        tab >= 1,
        text_width >= 1,
        0 <= j <= word_wrap_points(s, text_width, tab).len(),
        start == if j == 0 { 0 } else { word_wrap_points(s, text_width, tab)[j - 1] },
        start < i < s.len(),
        range_width(s, start, i + 1, tab) > text_width - 1,
    ensures
        j < word_wrap_points(s, text_width, tab).len(),
{
    let usable = text_width - 1;
    let mw = text_width / 2;
    let p = wrap_points_from(s, 0, usable, mw, tab);
    assert(word_wrap_points(s, text_width, tab) == p);
    if j > 0 {
        lemma_wrap_points_suffix(s, 0, usable, mw, tab, j);
        lemma_wrap_points_chain(s, 0, usable, mw, tab, j - 1);
    }
    let i0 = first_overflow(s, start, start, usable, tab);
    lemma_first_overflow_fits(s, start, start, usable, tab);
    if i0 > i {
        assert(seg_width(s, start, (i - start + 1) as nat, tab) <= usable);
        assert(range_width(s, start, i + 1, tab) <= usable);
    }
    lemma_seg_width_grows(s, start, (i + 1 - start) as nat, (s.len() - start) as nat, tab);
    lemma_last_ws_in_range(s, start, i0);
    assert(next_wrap(s, start, usable, mw, tab) is Some);
    let rest = wrap_points_from(s, start, usable, mw, tab);
    assert(rest.len() > 0);
    if j > 0 {
        assert(p.skip(j) == rest);
    }
}

/// Wrapping breaks a line inside a word only when it must: when the segment
/// that starts at a wrap point (or the line's start) first overflows the
/// usable columns at index `i` and it holds no white space after its first
/// character before `i`, or the word broken at `i` is wider than
/// `text_width / 2` columns, the next wrap point is `i` itself (or the
/// index after the segment's first character when that character alone
/// overflows).
pub proof fn lemma_wrap_inside_long_word(s: Seq<char>, text_width: int, tab: int, j: int, start: int, i: int)
    requires
        tab >= 1,
        text_width >= 1,
        0 <= j < word_wrap_points(s, text_width, tab).len(),
        start == if j == 0 { 0 } else { word_wrap_points(s, text_width, tab)[j - 1] },
        start <= i < s.len(),
        range_width(s, start, i + 1, tab) > text_width - 1,
        forall|m: int| start <= m < i ==> #[trigger] range_width(s, start, m + 1, tab) <= text_width - 1,
        (forall|m: int| start < m < i ==> !is_white_space(#[trigger] s[m]))
            || (exists|k: int| start < k < i && is_white_space(s[k])
                && (forall|m: int| k < m < i ==> !is_white_space(#[trigger] s[m]))
                && range_width(s, k + 1, i, tab) > text_width / 2),
    ensures
        word_wrap_points(s, text_width, tab)[j] == if i > start { i } else { start + 1 },
{
    let usable = text_width - 1;
    let mw = text_width / 2;
    let p = wrap_points_from(s, 0, usable, mw, tab);
    assert(s.len() > 0);
    assert(word_wrap_points(s, text_width, tab) == p);
    lemma_wrap_points_chain(s, 0, usable, mw, tab, j);
    lemma_first_overflow_is(s, start, start, usable, tab, i);
    lemma_last_ws_in_range(s, start, i);
    if forall|m: int| start < m < i ==> !is_white_space(#[trigger] s[m]) {
        match last_ws(s, start, i) {
            Some(sp) => {
                assert(sp == start);
            },
            None => {},
        }
    } else {
        let k = choose|k: int| start < k < i && is_white_space(s[k])
            && (forall|m: int| k < m < i ==> !is_white_space(#[trigger] s[m]))
            && range_width(s, k + 1, i, tab) > mw;
        lemma_last_ws_is(s, start, i, k);
        if !is_white_space(s[i - 1]) {
            assert(last_non_ws(s, start, i) == Some(i - 1));
            lemma_run_start_is(s, start, i - 1, k);
        } else {
            assert(k == i - 1);
        }
    }
}

} // verus!

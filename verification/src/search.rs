//! Stepping through single-line search matches: the next match after a
//! position, or the previous one before it, optionally wrapping around the
//! document (or the search scope).  Columns here are byte offsets.
use vstd::prelude::*;
use crate::coordinates::copy_lines_vec;
use crate::editor_state::Position;
use crate::find::{
    build_joined_text, char_at_byte, char_index_at_byte, chars_in_bytes, escape_at, join_range, joined_last,
    joined_starts, lemma_char_at_byte_order, min2, multi_line_source, multiline_regex, offset_position,
    offset_position_checked, pattern_is_multiline, pattern_to_regex, regex_compiles, regex_match_spans,
    search_lines, single_line_source, slice_range, texts, SearchRegex,
};
use crate::text::{byte_len, byte_length, substring};

verus! {

// ---------------------------------------------------------------------------
// Matches within one line
// ---------------------------------------------------------------------------

/// The matches of regex text `src` in bytes `a..b` of `l`, as byte ranges
/// within that slice; `None` when `a` or `b` does not fall between
/// characters.
pub open spec fn slice_spans(l: Seq<char>, a: int, b: int, src: Seq<char>) -> Option<Seq<(usize, usize)>> {
    match (char_at_byte(l, a), char_at_byte(l, b)) {
        (Some(x), Some(y)) => Some(regex_match_spans(src, l.subrange(x, y))),
        _ => None,
    }
}

/// Byte column of the first match in bytes `a..b` of `l`: `Some(None)` when
/// there is none (or the range is empty), `None` when the slice cannot be
/// searched or the column does not fit in `usize`.
pub open spec fn first_in(l: Seq<char>, a: int, b: int, src: Seq<char>) -> Option<Option<int>> {
    if a >= b {
        Some(None)
    } else {
        match slice_spans(l, a, b, src) {
            None => None,
            Some(sp) => if sp.len() == 0 {
                Some(None)
            } else if a + sp[0].0 <= usize::MAX {
                Some(Some(a + sp[0].0))
            } else {
                None
            },
        }
    }
}

/// Byte column of the last match in bytes `a..b` of `l` (as `first_in`).
pub open spec fn last_in(l: Seq<char>, a: int, b: int, src: Seq<char>) -> Option<Option<int>> {
    if a >= b {
        Some(None)
    } else {
        match slice_spans(l, a, b, src) {
            None => None,
            Some(sp) => if sp.len() == 0 {
                Some(None)
            } else if a + sp.last().0 <= usize::MAX {
                Some(Some(a + sp.last().0))
            } else {
                None
            },
        }
    }
}

/// Going through the matches `sp[i..]` of a slice starting at byte `a` in
/// order: the column of the last one before the first that starts at or
/// after column `limit`.
pub open spec fn last_below(sp: Seq<(usize, usize)>, a: int, limit: int, i: int) -> Option<int>
    decreases sp.len() - i,
{
    if i < 0 || i >= sp.len() || a + sp[i].0 >= limit {
        None
    } else {
        match last_below(sp, a, limit, i + 1) {
            Some(x) => Some(x),
            None => Some(a + sp[i].0),
        }
    }
}

/// Byte column of the last match in bytes `a..b` of `l` that starts before
/// column `limit` (as `first_in`).
pub open spec fn last_in_before(l: Seq<char>, a: int, b: int, src: Seq<char>, limit: int) -> Option<Option<int>> {
    if a >= b {
        Some(None)
    } else {
        match slice_spans(l, a, b, src) {
            None => None,
            Some(sp) => Some(last_below(sp, a, limit, 0)),
        }
    }
}

/// Computes `slice_spans` for `a < b`.
fn spans_in(line: &str, a: usize, b: usize, re: &SearchRegex) -> (r: Option<Vec<(usize, usize)>>)
    requires
        a < b,
    ensures
        match r {
            Some(v) => slice_spans(line@, a as int, b as int, re.source()) == Some(v@),
            None => slice_spans(line@, a as int, b as int, re.source()) is None,
        },
{
    let ka = char_index_at_byte(line, a);
    let kb = char_index_at_byte(line, b);
    match (ka, kb) {
        (Some(x), Some(y)) => {
            proof {
                lemma_char_at_byte_order(line@, a as int, b as int);
                assert(chars_in_bytes(line@, b as int, y as int));
            }
            let slice = substring(line, x, y);
            Some(re.match_spans(slice.as_str()))
        },
        _ => None,
    }
}

/// Computes `first_in`.
fn first_match_in(line: &str, a: usize, b: usize, re: &SearchRegex) -> (r: Option<Option<usize>>)
    ensures
        match (r, first_in(line@, a as int, b as int, re.source())) {
            (Some(Some(x)), Some(Some(y))) => x == y,
            (Some(None), Some(None)) => true,
            (None, None) => true,
            _ => false,
        },
{
    if a >= b {
        return Some(None);
    }
    let sp = match spans_in(line, a, b, re) {
        Some(v) => v,
        None => return None,
    };
    if sp.len() == 0 {
        Some(None)
    } else {
        match a.checked_add(sp[0].0) {
            Some(c) => Some(Some(c)),
            None => None,
        }
    }
}

/// Computes `last_in`.
fn last_match_in(line: &str, a: usize, b: usize, re: &SearchRegex) -> (r: Option<Option<usize>>)
    ensures
        match (r, last_in(line@, a as int, b as int, re.source())) {
            (Some(Some(x)), Some(Some(y))) => x == y,
            (Some(None), Some(None)) => true,
            (None, None) => true,
            _ => false,
        },
{
    if a >= b {
        return Some(None);
    }
    let sp = match spans_in(line, a, b, re) {
        Some(v) => v,
        None => return None,
    };
    if sp.len() == 0 {
        Some(None)
    } else {
        match a.checked_add(sp[sp.len() - 1].0) {
            Some(c) => Some(Some(c)),
            None => None,
        }
    }
}

/// Computes `last_in_before`.
fn last_match_before(line: &str, a: usize, b: usize, re: &SearchRegex, limit: usize) -> (r: Option<Option<usize>>)
    ensures
        match (r, last_in_before(line@, a as int, b as int, re.source(), limit as int)) {
            (Some(Some(x)), Some(Some(y))) => x == y,
            (Some(None), Some(None)) => true,
            (None, None) => true,
            _ => false,
        },
{
    if a >= b {
        return Some(None);
    }
    let sp = match spans_in(line, a, b, re) {
        Some(v) => v,
        None => return None,
    };
    let mut last: Option<usize> = None;
    let mut i: usize = 0;
    while i < sp.len()
        invariant
            i <= sp@.len(),
            last_below(sp@, a as int, limit as int, 0) == (match last_below(sp@, a as int, limit as int, i as int) {
                Some(x) => Some(x),
                None => match last { Some(y) => Some(y as int), None => None },
            }),
        ensures
            last_below(sp@, a as int, limit as int, i as int) is None,
            last_below(sp@, a as int, limit as int, 0) == (match last { Some(y) => Some(y as int), None => None }),
        decreases sp@.len() - i,
    {
        if sp[i].0 >= limit || a >= limit - sp[i].0 {
            assert(last_below(sp@, a as int, limit as int, i as int) is None);
            break;
        }
        last = Some(a + sp[i].0);
        i = i + 1;
    }
    Some(last)
}

/// The byte column `c` of line `i` as a position.
pub open spec fn at(i: int, c: Option<Option<int>>) -> Option<Option<Position>> {
    match c {
        None => None,
        Some(None) => Some(None),
        Some(Some(x)) => Some(Some((i as usize, x as usize))),
    }
}

// ---------------------------------------------------------------------------
// Walking over lines
// ---------------------------------------------------------------------------

/// The first match on lines `i..hi` (those that exist), each searched in its
/// `slice_range`; `None` when a line on the way cannot be searched.
pub open spec fn forward_from(lines: Seq<String>, src: Seq<char>, scope: Option<(Position, Position)>, i: int, hi: int)
    -> Option<Option<Position>>
    decreases hi - i,
{
    if i < 0 || i >= hi || i >= lines.len() {
        Some(None)
    } else {
        let l = lines[i]@;
        match first_in(l, slice_range(l, i, scope).0, slice_range(l, i, scope).1, src) {
            None => None,
            Some(Some(c)) => Some(Some((i as usize, c as usize))),
            Some(None) => forward_from(lines, src, scope, i + 1, hi),
        }
    }
}

/// The last match on lines `lo..i` (those that exist), walking up from
/// line `i - 1`, each searched in its `slice_range`; `None` when a line on
/// the way cannot be searched.
pub open spec fn backward_from(lines: Seq<String>, src: Seq<char>, scope: Option<(Position, Position)>, lo: int, i: int)
    -> Option<Option<Position>>
    decreases i - lo,
{
    if i <= lo || lo < 0 {
        Some(None)
    } else if i > lines.len() {
        if lines.len() <= lo {
            Some(None)
        } else {
            backward_from(lines, src, scope, lo, lines.len() as int)
        }
    } else {
        let k = i - 1;
        let l = lines[k]@;
        match last_in(l, slice_range(l, k, scope).0, slice_range(l, k, scope).1, src) {
            None => None,
            Some(Some(c)) => Some(Some((k as usize, c as usize))),
            Some(None) => backward_from(lines, src, scope, lo, k),
        }
    }
}

/// Byte range of line `idx` (text `l`) for a single-line search.
fn line_range(line: &str, idx: usize, scope: Option<(Position, Position)>) -> (r: (usize, usize))
    ensures
        r.0 == slice_range(line@, idx as int, scope).0,
        r.1 == slice_range(line@, idx as int, scope).1,
{
    let blen = byte_length(line);
    match scope {
        Some((s, e)) => (
            if idx == s.0 { s.1 } else { 0 },
            if idx == e.0 { if e.1 < blen { e.1 } else { blen } } else { blen },
        ),
        None => (0, blen),
    }
}

/// Computes `forward_from(.., i, last + 1)`.
fn search_forward(lines: &[String], re: &SearchRegex, scope: Option<(Position, Position)>, i: usize, last: usize)
    -> (r: Option<Option<Position>>)
    ensures
        r == forward_from(lines@, re.source(), scope, i as int, last + 1),
{
    let mut k = i;
    while k < lines.len() && k <= last
        invariant
            i <= k,
            forward_from(lines@, re.source(), scope, i as int, last + 1)
                == forward_from(lines@, re.source(), scope, k as int, last + 1),
        decreases lines@.len() - k,
    {
        let line = lines[k].as_str();
        let (a, b) = line_range(line, k, scope);
        match first_match_in(line, a, b, re) {
            None => return None,
            Some(Some(c)) => return Some(Some((k, c))),
            Some(None) => {},
        }
        k = k + 1;
    }
    Some(None)
}

/// Computes `backward_from(.., lo, top + 1)`.
fn search_backward(lines: &[String], re: &SearchRegex, scope: Option<(Position, Position)>, lo: usize, top: usize)
    -> (r: Option<Option<Position>>)
    ensures
        r == backward_from(lines@, re.source(), scope, lo as int, top + 1),
{
    let n = lines.len();
    let mut i: usize = if top >= n { n } else { top + 1 };
    while i > lo
        invariant
            i <= lines@.len(),
            backward_from(lines@, re.source(), scope, lo as int, top + 1)
                == backward_from(lines@, re.source(), scope, lo as int, i as int),
        decreases i,
    {
        let k = i - 1;
        let line = lines[k].as_str();
        let (a, b) = line_range(line, k, scope);
        match last_match_in(line, a, b, re) {
            None => return None,
            Some(Some(c)) => return Some(Some((k, c))),
            Some(None) => {},
        }
        i = k;
    }
    Some(None)
}

// ---------------------------------------------------------------------------
// Next and previous match
// ---------------------------------------------------------------------------

/// The next match after `start` (line, byte column) for regex text `src`,
/// within `scope` when there is one; `Some(None)` when there is none, and
/// `None` when a slice the search looks at does not lie between characters.
///
/// Without `force_wrap` the search looks at the rest of the start line after
/// the start column (up to the scope's end column on its last line), then at
/// the following lines up to the end of the scope or document.  With
/// `force_wrap` it looks at the lines from the scope's (or document's)
/// first line through the start line.
pub open spec fn next_match(lines: Seq<String>, start: Position, src: Seq<char>, force_wrap: bool, scope: Option<(Position, Position)>)
    -> Option<Option<Position>>
{
    let (sl, sc) = start;
    let n = lines.len() as int;
    let (min_line, max_line) = search_lines(n, scope);
    if !force_wrap {
        let cur = if min_line <= sl <= max_line && sl < n {
            let l = lines[sl as int]@;
            let blen = byte_len(l) as int;
            let to = match scope {
                Some((_, e)) => if sl == e.0 { min2(e.1 as int, blen) } else { blen },
                None => blen,
            };
            at(sl as int, first_in(l, sc + 1, to, src))
        } else {
            Some(None)
        };
        match cur {
            Some(None) => forward_from(lines, src, scope, sl + 1, min2(max_line, if n >= 1 { n - 1 } else { 0 }) + 1),
            other => other,
        }
    } else {
        forward_from(lines, src, scope, min_line, min2(sl as int, max_line) + 1)
    }
}

/// The previous match before `start` (line, byte column) for regex text
/// `src` (see `next_match` for the result).
///
/// Without `force_wrap` the search looks at the matches of the start line
/// (within its `slice_range`) that begin before the start column, taking
/// the last of them, then at the lines above it up to the scope's (or
/// document's) first line, taking the last match of the nearest line that
/// has one.  With `force_wrap` it looks at the lines from the scope's (or
/// document's) last line up to the start line.
pub open spec fn prev_match(lines: Seq<String>, start: Position, src: Seq<char>, force_wrap: bool, scope: Option<(Position, Position)>)
    -> Option<Option<Position>>
{
    let (sl, sc) = start;
    let n = lines.len() as int;
    let (min_line, max_line) = search_lines(n, scope);
    if !force_wrap {
        let cur = if min_line <= sl <= max_line && sl < n {
            let l = lines[sl as int]@;
            let r = slice_range(l, sl as int, scope);
            at(sl as int, last_in_before(l, r.0, r.1, src, sc as int))
        } else {
            Some(None)
        };
        match cur {
            Some(None) => backward_from(lines, src, scope, min_line, sl as int),
            other => other,
        }
    } else {
        backward_from(lines, src, scope, sl as int, max_line + 1)
    }
}

/// Computes `next_match`.
fn next_match_of(lines: &[String], start: Position, re: &SearchRegex, force_wrap: bool, scope: Option<(Position, Position)>)
    -> (r: Option<Option<Position>>)
    requires
        start.0 < usize::MAX,
        start.1 < usize::MAX,
    ensures
        r == next_match(lines@, start, re.source(), force_wrap, scope),
{
    let (sl, sc) = start;
    let n = lines.len();
    let (min_line, max_line) = match scope {
        Some((s, e)) => (s.0, e.0),
        None => (0, if n >= 1 { n - 1 } else { 0 }),
    };
    if !force_wrap {
        if min_line <= sl && sl <= max_line && sl < n {
            let line = lines[sl].as_str();
            let blen = byte_length(line);
            let to = match scope {
                Some((_, e)) => if sl == e.0 { if e.1 < blen { e.1 } else { blen } } else { blen },
                None => blen,
            };
            match first_match_in(line, sc + 1, to, re) {
                None => return None,
                Some(Some(c)) => return Some(Some((sl, c))),
                Some(None) => {},
            }
        }
        let last_line = if n >= 1 { n - 1 } else { 0 };
        let end_line = if max_line < last_line { max_line } else { last_line };
        search_forward(lines, re, scope, sl + 1, end_line)
    } else {
        let top = if sl < max_line { sl } else { max_line };
        search_forward(lines, re, scope, min_line, top)
    }
}

/// Computes `prev_match`.
fn prev_match_of(lines: &[String], start: Position, re: &SearchRegex, force_wrap: bool, scope: Option<(Position, Position)>)
    -> (r: Option<Option<Position>>)
    ensures
        r == prev_match(lines@, start, re.source(), force_wrap, scope),
{
    let (sl, sc) = start;
    let n = lines.len();
    let (min_line, max_line) = match scope {
        Some((s, e)) => (s.0, e.0),
        None => (0, if n >= 1 { n - 1 } else { 0 }),
    };
    if !force_wrap {
        if min_line <= sl && sl <= max_line && sl < n {
            let line = lines[sl].as_str();
            let (a, b) = line_range(line, sl, scope);
            match last_match_before(line, a, b, re, sc) {
                None => return None,
                Some(Some(c)) => return Some(Some((sl, c))),
                Some(None) => {},
            }
        }
        if sl == 0 {
            return Some(None);
        }
        search_backward(lines, re, scope, min_line, sl - 1)
    } else {
        search_backward(lines, re, scope, sl, max_line)
    }
}

/// The next match after `start` (see `next_match`), for inputs where the
/// search can be done.
pub fn find_next(lines: &[String], start: Position, re: &SearchRegex, force_wrap: bool, scope: Option<(Position, Position)>)
    -> (r: Option<Position>)
    requires
        start.0 < usize::MAX,
        start.1 < usize::MAX,
        next_match(lines@, start, re.source(), force_wrap, scope) is Some,
    ensures
        next_match(lines@, start, re.source(), force_wrap, scope) == Some(r),
{
    match next_match_of(lines, start, re, force_wrap, scope) {
        Some(r) => r,
        None => None,
    }
}

/// `find_next` where the search can be done; `None` exactly when
/// `next_match` is `None`.
pub fn find_next_checked(lines: &[String], start: Position, re: &SearchRegex, force_wrap: bool, scope: Option<(Position, Position)>)
    -> (r: Option<Option<Position>>)
    requires
        start.0 < usize::MAX,
        start.1 < usize::MAX,
    ensures
        r == next_match(lines@, start, re.source(), force_wrap, scope),
{
    match next_match_of(lines, start, re, force_wrap, scope) {
        Some(_) => Some(find_next(lines, start, re, force_wrap, scope)),
        None => None,
    }
}

/// The previous match before `start` (see `prev_match`), for inputs where
/// the search can be done.
pub fn find_prev(lines: &[String], start: Position, re: &SearchRegex, force_wrap: bool, scope: Option<(Position, Position)>)
    -> (r: Option<Position>)
    requires
        prev_match(lines@, start, re.source(), force_wrap, scope) is Some,
    ensures
        prev_match(lines@, start, re.source(), force_wrap, scope) == Some(r),
{
    match prev_match_of(lines, start, re, force_wrap, scope) {
        Some(r) => r,
        None => None,
    }
}

/// `find_prev` where the search can be done; `None` exactly when
/// `prev_match` is `None`.
pub fn find_prev_checked(lines: &[String], start: Position, re: &SearchRegex, force_wrap: bool, scope: Option<(Position, Position)>)
    -> (r: Option<Option<Position>>)
    ensures
        r == prev_match(lines@, start, re.source(), force_wrap, scope),
{
    match prev_match_of(lines, start, re, force_wrap, scope) {
        Some(_) => Some(find_prev(lines, start, re, force_wrap, scope)),
        None => None,
    }
}


// ---------------------------------------------------------------------------
// Counting hits
// ---------------------------------------------------------------------------

/// Byte columns of the matches of `src` in the `slice_range` of line `idx`
/// (text `l`), in order; `None` when the slice cannot be searched or a
/// column does not fit in `usize`.
pub open spec fn line_cols(l: Seq<char>, idx: int, scope: Option<(Position, Position)>, src: Seq<char>) -> Option<Seq<int>> {
    let r = slice_range(l, idx, scope);
    if r.0 >= r.1 {
        Some(Seq::empty())
    } else {
        match slice_spans(l, r.0, r.1, src) {
            None => None,
            Some(sp) => if forall|j: int| 0 <= j < sp.len() ==> r.0 + #[trigger] sp[j].0 <= usize::MAX {
                Some(Seq::new(sp.len(), |j: int| r.0 + sp[j].0))
            } else {
                None
            },
        }
    }
}

/// Positions (line, byte column) of the single-line matches on lines
/// `lo..hi`, in order; `None` when a line cannot be searched or does not
/// exist.
pub open spec fn hit_list(lines: Seq<String>, src: Seq<char>, scope: Option<(Position, Position)>, lo: int, hi: int)
    -> Option<Seq<(int, int)>>
    decreases hi - lo,
{
    if hi <= lo {
        Some(Seq::empty())
    } else {
        match hit_list(lines, src, scope, lo, hi - 1) {
            None => None,
            Some(s) => if hi - 1 < 0 || hi - 1 >= lines.len() {
                None
            } else {
                match line_cols(lines[hi - 1]@, hi - 1, scope, src) {
                    None => None,
                    Some(cs) => Some(s + Seq::new(cs.len(), |j: int| (hi - 1, cs[j]))),
                }
            },
        }
    }
}

/// Positions (line, character column) of the starts of the multi-line
/// matches `spans` of the joined text; `None` when one cannot be mapped back.
pub open spec fn multi_positions(spans: Seq<(usize, usize)>, starts: Seq<usize>, lines: Seq<String>, min_line: int)
    -> Option<Seq<(int, int)>>
    decreases spans.len(),
{
    if spans.len() == 0 {
        Some(Seq::empty())
    } else {
        match multi_positions(spans.drop_last(), starts, lines, min_line) {
            None => None,
            Some(s) => match offset_position(spans.last().0 as int, starts, lines, min_line) {
                None => None,
                Some(p) => Some(s.push((p.0 as int, p.1 as int))),
            },
        }
    }
}

/// 1-based number of the first hit at `p` in `s` (0 when none is).
pub open spec fn first_hit_number(s: Seq<(int, int)>, p: (int, int)) -> int
    decreases s.len(),
{
    if s.len() == 0 {
        0
    } else if first_hit_number(s.drop_last(), p) != 0 {
        first_hit_number(s.drop_last(), p)
    } else if s.last() == p {
        s.len() as int
    } else {
        0
    }
}

/// 1-based number of the last hit at `p` in `s` (0 when none is).
pub open spec fn last_hit_number(s: Seq<(int, int)>, p: (int, int)) -> int
    decreases s.len(),
{
    if s.len() == 0 {
        0
    } else if s.last() == p {
        s.len() as int
    } else {
        last_hit_number(s.drop_last(), p)
    }
}

/// (number of the hit at the cursor, total hits) of search `pattern` over
/// the scope (or the document): `(0, 0)` when the pattern does not compile;
/// `None` when the search cannot be done (an empty document searched from
/// line 0, a slice or match position that does not fall between
/// characters, more hits than `usize` counts).  A multi-line pattern (see `pattern_is_multiline`) is
/// matched against the joined lines and its hits are character positions,
/// the cursor's hit being the last one there; a single-line pattern is
/// matched line by line in each line's `slice_range`, its hits are byte
/// columns, the cursor's hit being the first one there.
#[verifier::opaque]
pub open spec fn search_hits(lines: Seq<String>, cursor: Position, pattern: Seq<char>, regex_mode: bool, scope: Option<(Position, Position)>)
    -> Option<(int, int)>
{
    let n = lines.len() as int;
    let (min_line, max_line) = search_lines(n, scope);
    let p = (cursor.0 as int, cursor.1 as int);
    if exists|i: int| escape_at(pattern, i) {
        let src = multi_line_source(pattern);
        if !regex_compiles(src) {
            Some((0, 0))
        } else if n == 0 && min_line == 0 {
            None
        } else {
            let hi = joined_last(n, max_line) + 1;
            let joined = join_range(texts(lines), min_line, hi);
            match multi_positions(regex_match_spans(src, joined), joined_starts(lines, min_line, hi), lines, min_line) {
                None => None,
                Some(s) => if s.len() <= usize::MAX { Some((last_hit_number(s, p), s.len() as int)) } else { None },
            }
        }
    } else {
        let src = single_line_source(pattern, regex_mode);
        if !regex_compiles(src) {
            Some((0, 0))
        } else if n == 0 && min_line == 0 {
            None
        } else {
            match hit_list(lines, src, scope, min_line, min2(max_line, if n >= 1 { n - 1 } else { 0 }) + 1) {
                None => None,
                Some(s) => if s.len() <= usize::MAX { Some((first_hit_number(s, p), s.len() as int)) } else { None },
            }
        }
    }
}

/// A hit number is at most the number of hits.
proof fn lemma_hit_numbers_bounded(s: Seq<(int, int)>, p: (int, int))
    ensures
        0 <= first_hit_number(s, p) <= s.len(),
        0 <= last_hit_number(s, p) <= s.len(),
    decreases s.len(),
{
    if s.len() > 0 {
        lemma_hit_numbers_bounded(s.drop_last(), p);
    }
}

/// The hit number is at most the number of hits, which fits in `usize`.
pub proof fn lemma_search_hits_range(lines: Seq<String>, cursor: Position, pattern: Seq<char>, regex_mode: bool, scope: Option<(Position, Position)>)
    ensures
        search_hits(lines, cursor, pattern, regex_mode, scope) matches Some(h) ==> 0 <= h.0 <= h.1 <= usize::MAX,
{
    reveal(search_hits);
    let p = (cursor.0 as int, cursor.1 as int);
    let n = lines.len() as int;
    let (min_line, max_line) = search_lines(n, scope);
    let hi = joined_last(n, max_line) + 1;
    let joined = join_range(texts(lines), min_line, hi);
    if let Some(s) = multi_positions(regex_match_spans(multi_line_source(pattern), joined), joined_starts(lines, min_line, hi), lines, min_line) {
        lemma_hit_numbers_bounded(s, p);
    }
    if let Some(s) = hit_list(lines, single_line_source(pattern, regex_mode), scope, min_line, min2(max_line, if n >= 1 { n - 1 } else { 0 }) + 1) {
        lemma_hit_numbers_bounded(s, p);
    }
}

/// Computes `line_cols` for line `idx`.
fn line_cols_of(lines: &[String], idx: usize, scope: Option<(Position, Position)>, re: &SearchRegex) -> (r: Option<Vec<usize>>)
    requires
        idx < lines@.len(),
    ensures
        match r {
            Some(v) => line_cols(lines@[idx as int]@, idx as int, scope, re.source())
                == Some(Seq::new(v@.len(), |j: int| v@[j] as int)),
            None => line_cols(lines@[idx as int]@, idx as int, scope, re.source()) is None,
        },
{
    let line = lines[idx].as_str();
    let (a, b) = line_range(line, idx, scope);
    let mut v: Vec<usize> = Vec::new();
    if a >= b {
        assert(Seq::new(v@.len(), |j: int| v@[j] as int) =~= Seq::<int>::empty());
        return Some(v);
    }
    let sp = match spans_in(line, a, b, re) {
        Some(x) => x,
        None => return None,
    };
    let mut j: usize = 0;
    while j < sp.len()
        invariant
            j <= sp@.len(),
            v@.len() == j,
            forall|k: int| 0 <= k < j ==> v@[k] == a + #[trigger] sp@[k].0,
            a < b,
            line@ == lines@[idx as int]@,
            a == slice_range(line@, idx as int, scope).0,
            b == slice_range(line@, idx as int, scope).1,
            slice_spans(line@, a as int, b as int, re.source()) == Some(sp@),
        decreases sp@.len() - j,
    {
        match a.checked_add(sp[j].0) {
            Some(c) => v.push(c),
            None => {
                proof {
                    assert(slice_spans(line@, a as int, b as int, re.source()) == Some(sp@));
                    assert(!(a + sp@[j as int].0 <= usize::MAX));
                    assert(!(forall|k: int| 0 <= k < sp@.len() ==> a + #[trigger] sp@[k].0 <= usize::MAX));
                }
                return None;
            },
        }
        j = j + 1;
    }
    assert(Seq::new(v@.len(), |k: int| v@[k] as int) =~= Seq::new(sp@.len(), |k: int| a + sp@[k].0));
    Some(v)
}

/// Once the hits of a prefix of the lines cannot be listed, neither can
/// those of more lines; otherwise the list only grows.
proof fn lemma_hit_list_grows(lines: Seq<String>, src: Seq<char>, scope: Option<(Position, Position)>, lo: int, j: int, k: int)
    requires
        lo <= j <= k,
    ensures
        hit_list(lines, src, scope, lo, j) is None ==> hit_list(lines, src, scope, lo, k) is None,
        hit_list(lines, src, scope, lo, k) matches Some(t) ==> hit_list(lines, src, scope, lo, j) matches Some(s) && s.len() <= t.len(),
    decreases k - j,
{
    if j < k {
        lemma_hit_list_grows(lines, src, scope, lo, j, k - 1);
    }
}

/// Computes the single-line part of `search_hits`.
fn single_line_hit_count(lines: &[String], cursor: Position, re: &SearchRegex, scope: Option<(Position, Position)>, lo: usize, last: usize)
    -> (r: Option<(usize, usize)>)
    requires
        last < lines@.len(),
    ensures
        match hit_list(lines@, re.source(), scope, lo as int, last + 1) {
            Some(s) => if s.len() <= usize::MAX {
                r matches Some(x) && x.0 == first_hit_number(s, (cursor.0 as int, cursor.1 as int)) && x.1 == s.len()
            } else {
                r is None
            },
            None => r is None,
        },
{
    let n = lines.len();
    let ghost p = (cursor.0 as int, cursor.1 as int);
    let mut total: usize = 0;
    let mut current: usize = 0;
    let ghost mut acc: Seq<(int, int)> = Seq::empty();
    if lo > last {
        return Some((0, 0));
    }
    let mut idx = lo;
    while idx <= last
        invariant
            lo <= idx <= last + 1,
            last < n,
            n == lines@.len(),
            hit_list(lines@, re.source(), scope, lo as int, idx as int) == Some(acc),
            total == acc.len(),
            current == first_hit_number(acc, p),
            p == (cursor.0 as int, cursor.1 as int),
        decreases last + 1 - idx,
    {
        let cols = match line_cols_of(lines, idx, scope, re) {
            Some(c) => c,
            None => {
                proof {
                    lemma_hit_list_grows(lines@, re.source(), scope, lo as int, idx + 1, last + 1);
                }
                return None;
            },
        };
        let ghost before = acc;
        let mut j: usize = 0;
        while j < cols.len()
            invariant
                j <= cols@.len(),
                lo <= idx <= last,
                last < n,
                n == lines@.len(),
                hit_list(lines@, re.source(), scope, lo as int, idx as int) == Some(before),
                line_cols(lines@[idx as int]@, idx as int, scope, re.source()) == Some(Seq::new(cols@.len(), |k: int| cols@[k] as int)),
                acc.len() == before.len() + j,
                forall|k: int| 0 <= k < before.len() ==> acc[k] == before[k],
                forall|k: int| 0 <= k < j ==> acc[before.len() + k] == (idx as int, cols@[k] as int),
                total == acc.len(),
                current == first_hit_number(acc, p),
                p == (cursor.0 as int, cursor.1 as int),
            decreases cols@.len() - j,
        {
            let c = cols[j];
            proof {
                assert(acc.push((idx as int, c as int)).drop_last() =~= acc);
            }
            if total < usize::MAX {
                total = total + 1;
            } else {
                proof {
                    let cs = Seq::new(cols@.len(), |k: int| cols@[k] as int);
                    let full = before + Seq::new(cs.len(), |k: int| (idx as int, cs[k]));
                    assert(hit_list(lines@, re.source(), scope, lo as int, idx + 1) == Some(full));
                    lemma_hit_list_grows(lines@, re.source(), scope, lo as int, idx + 1, last + 1);
                }
                return None;
            }
            if current == 0 && idx == cursor.0 && c == cursor.1 {
                current = total;
            }
            proof {
                let x = (idx as int, c as int);
                assert(first_hit_number(acc.push(x), p) == if first_hit_number(acc, p) != 0 {
                    first_hit_number(acc, p)
                } else if x == p {
                    acc.len() + 1 as int
                } else {
                    0
                });
                acc = acc.push(x);
            }
            j = j + 1;
        }
        proof {
            let cs = Seq::new(cols@.len(), |k: int| cols@[k] as int);
            assert(acc =~= before + Seq::new(cs.len(), |k: int| (idx as int, cs[k])));
        }
        idx = idx + 1;
    }
    Some((current, total))
}

/// Once the positions of a prefix of the matches cannot be mapped back,
/// neither can those of more matches; otherwise the list only grows.
proof fn lemma_multi_positions_grows(spans: Seq<(usize, usize)>, starts: Seq<usize>, lines: Seq<String>, min_line: int, j: int, k: int)
    requires
        0 <= j <= k <= spans.len(),
    ensures
        multi_positions(spans.take(j), starts, lines, min_line) is None ==> multi_positions(spans.take(k), starts, lines, min_line) is None,
        multi_positions(spans.take(k), starts, lines, min_line) matches Some(t)
            ==> multi_positions(spans.take(j), starts, lines, min_line) matches Some(s) && s.len() <= t.len(),
    decreases k - j,
{
    if j < k {
        lemma_multi_positions_grows(spans, starts, lines, min_line, j, k - 1);
        assert(spans.take(k).drop_last() =~= spans.take(k - 1));
    }
}

/// Computes the multi-line part of `search_hits`.
fn multi_line_hit_count(lines: &[String], cursor: Position, re: &SearchRegex, min_line: usize, max_line: usize)
    -> (r: Option<(usize, usize)>)
    requires
        lines@.len() > 0 || min_line > 0,
    ensures
        ({
            let hi = joined_last(lines@.len() as int, max_line as int) + 1;
            let joined = join_range(texts(lines@), min_line as int, hi);
            match multi_positions(regex_match_spans(re.source(), joined), joined_starts(lines@, min_line as int, hi), lines@, min_line as int) {
                Some(s) => if s.len() <= usize::MAX {
                    r matches Some(x) && x.0 == last_hit_number(s, (cursor.0 as int, cursor.1 as int)) && x.1 == s.len()
                } else {
                    r is None
                },
                None => r is None,
            }
        }),
{
    let lv: Vec<String> = copy_lines_vec(lines);
    let (joined, starts) = build_joined_text(&lv, min_line, max_line);
    let ghost hi = joined_last(lines@.len() as int, max_line as int) + 1;
    assert(starts@ =~= joined_starts(lines@, min_line as int, hi));
    let spans = re.match_spans(joined.as_str());
    let ghost sp = spans@;
    let ghost p = (cursor.0 as int, cursor.1 as int);
    let ghost mut acc: Seq<(int, int)> = Seq::empty();
    let mut total: usize = 0;
    let mut current: usize = 0;
    let mut j: usize = 0;
    assert(sp.take(0) =~= Seq::<(usize, usize)>::empty());
    while j < spans.len()
        invariant
            j <= sp.len(),
            sp == spans@,
            lv@ == lines@,
            hi == joined_last(lines@.len() as int, max_line as int) + 1,
            sp == regex_match_spans(re.source(), join_range(texts(lines@), min_line as int, hi)),
            starts@ == joined_starts(lines@, min_line as int, hi),
            multi_positions(sp.take(j as int), starts@, lines@, min_line as int) == Some(acc),
            total == acc.len(),
            current == last_hit_number(acc, p),
            p == (cursor.0 as int, cursor.1 as int),
        decreases sp.len() - j,
    {
        let m = spans[j];
        assert(sp.take(j + 1).drop_last() =~= sp.take(j as int));
        assert(sp.take(j + 1).last() == m);
        let q = match offset_position_checked(m.0, &starts, &lv, min_line) {
            Some(q) => q,
            None => {
                proof {
                    lemma_multi_positions_grows(sp, starts@, lines@, min_line as int, j + 1, sp.len() as int);
                    assert(sp.take(sp.len() as int) =~= sp);
                }
                return None;
            },
        };
        let ghost x = (q.0 as int, q.1 as int);
        if total < usize::MAX {
            total = total + 1;
        } else {
            proof {
                assert(multi_positions(sp.take(j + 1), starts@, lines@, min_line as int) == Some(acc.push(x)));
                lemma_multi_positions_grows(sp, starts@, lines@, min_line as int, j + 1, sp.len() as int);
                assert(sp.take(sp.len() as int) =~= sp);
            }
            return None;
        }
        if q.0 == cursor.0 && q.1 == cursor.1 {
            current = total;
        }
        proof {
            assert(acc.push(x).drop_last() =~= acc);
            acc = acc.push(x);
        }
        j = j + 1;
    }
    assert(sp.take(sp.len() as int) =~= sp);
    Some((current, total))
}

/// Computes `search_hits`.
fn search_hits_of(lines: &[String], cursor_pos: Position, pattern: &str, regex_mode: bool, scope: Option<(Position, Position)>)
    -> (r: Option<(usize, usize)>)
    ensures
        match (r, search_hits(lines@, cursor_pos, pattern@, regex_mode, scope)) {
            (Some(x), Some(h)) => x.0 == h.0 && x.1 == h.1,
            (None, None) => true,
            _ => false,
        },
{
    reveal(search_hits);
    let n = lines.len();
    let (min_line, max_line) = match scope {
        Some((s, e)) => (s.0, e.0),
        None => (0, if n >= 1 { n - 1 } else { 0 }),
    };
    if pattern_is_multiline(pattern) {
        let re = match multiline_regex(pattern) {
            Some(re) => re,
            None => return Some((0, 0)),
        };
        if n == 0 && min_line == 0 {
            return None;
        }
        multi_line_hit_count(lines, cursor_pos, &re, min_line, max_line)
    } else {
        let re = match pattern_to_regex(pattern, regex_mode) {
            Some(re) => re,
            None => return Some((0, 0)),
        };
        if n == 0 && min_line == 0 {
            return None;
        }
        if n == 0 {
            assert(hit_list(lines@, re.source(), scope, min_line as int, 1) == Some(Seq::<(int, int)>::empty()));
            return Some((0, 0));
        }
        let last = if max_line < n - 1 { max_line } else { n - 1 };
        single_line_hit_count(lines, cursor_pos, &re, scope, min_line, last)
    }
}

/// (number of the hit at the cursor, total hits) of a search (see
/// `search_hits`), for inputs where the search can be done.
pub fn calculate_search_hits(lines: &[String], cursor_pos: Position, pattern: &str, regex_mode: bool, scope: Option<(Position, Position)>)
    -> (r: (usize, usize))
    requires
        search_hits(lines@, cursor_pos, pattern@, regex_mode, scope) is Some,
    ensures
        search_hits(lines@, cursor_pos, pattern@, regex_mode, scope) == Some((r.0 as int, r.1 as int)),
{
    match search_hits_of(lines, cursor_pos, pattern, regex_mode, scope) {
        Some(r) => r,
        None => (0, 0),
    }
}

/// `calculate_search_hits` where the search can be done; `None` exactly
/// when `search_hits` is `None`.
pub fn calculate_search_hits_checked(lines: &[String], cursor_pos: Position, pattern: &str, regex_mode: bool, scope: Option<(Position, Position)>)
    -> (r: Option<(usize, usize)>)
    ensures
        match (r, search_hits(lines@, cursor_pos, pattern@, regex_mode, scope)) {
            (Some(x), Some(h)) => x.0 == h.0 && x.1 == h.1,
            (None, None) => true,
            _ => false,
        },
{
    match search_hits_of(lines, cursor_pos, pattern, regex_mode, scope) {
        Some(_) => Some(calculate_search_hits(lines, cursor_pos, pattern, regex_mode, scope)),
        None => None,
    }
}

// ---------------------------------------------------------------------------
// Next and previous multi-line match
// ---------------------------------------------------------------------------

/// Byte offset of character index `k` of `l` (the line's byte length when
/// `k` is past its end).
pub open spec fn char_byte(l: Seq<char>, k: int) -> int {
    byte_len(l.take(if k < l.len() { k } else { l.len() as int })) as int
}

/// The joined text a multi-line search over lines `min_line..=max_line`
/// looks at, with the byte offsets where its lines start.
pub open spec fn joined_of(lines: Seq<String>, min_line: int, max_line: int) -> (Seq<char>, Seq<usize>) {
    let hi = joined_last(lines.len() as int, max_line) + 1;
    (join_range(texts(lines), min_line, hi), joined_starts(lines, min_line, hi))
}

/// Byte offset in the joined text of the start position `(sl, sc)` (its
/// character column converted to bytes, plus `extra`), or `outside` when the
/// start line is outside the searched lines; `None` when the start line is
/// past the document or the offset does not fit in `usize`.
pub open spec fn start_byte(lines: Seq<String>, starts: Seq<usize>, min_line: int, max_line: int, start: Position, extra: int, outside: int)
    -> Option<int>
{
    let (sl, sc) = start;
    if min_line <= sl <= max_line {
        if sl >= lines.len() || sl - min_line >= starts.len() {
            None
        } else {
            let b = starts[sl - min_line] + char_byte(lines[sl as int]@, sc as int) + extra;
            if b <= usize::MAX { Some(b) } else { None }
        }
    } else {
        Some(outside)
    }
}

/// The match spans of `src` in the bytes `a..b` of `j`; `None` when a bound
/// does not fall between characters.
pub open spec fn joined_spans(j: Seq<char>, a: int, b: int, src: Seq<char>) -> Option<Seq<(usize, usize)>> {
    match (char_at_byte(j, a), char_at_byte(j, b)) {
        (Some(x), Some(y)) => if x <= y { Some(regex_match_spans(src, j.subrange(x, y))) } else { None },
        _ => None,
    }
}

/// Position of the match at byte `off + m.0` of the joined text.
pub open spec fn joined_hit(m: Option<(usize, usize)>, off: int, starts: Seq<usize>, lines: Seq<String>, min_line: int)
    -> Option<Option<Position>>
{
    match m {
        None => Some(None),
        Some(m) => if off + m.0 > usize::MAX {
            None
        } else {
            match offset_position(off + m.0, starts, lines, min_line) {
                None => None,
                Some(p) => Some(Some(p)),
            }
        },
    }
}

/// First span of `sp`, if any.
pub open spec fn first_span(sp: Seq<(usize, usize)>) -> Option<(usize, usize)> {
    if sp.len() == 0 { None } else { Some(sp[0]) }
}

/// Last span of `sp`, if any.
pub open spec fn last_span(sp: Seq<(usize, usize)>) -> Option<(usize, usize)> {
    if sp.len() == 0 { None } else { Some(sp.last()) }
}

/// The next multi-line match of regex text `src` after `start` (line,
/// character column), over the joined lines of the scope (or document);
/// `Some(None)` when there is none, `None` when the search cannot be done
/// (an empty document searched from line 0, a start line past the document,
/// a byte offset that does not fall between characters or fit in `usize`).
///
/// The search looks at the joined text from one byte past the start; with
/// `force_wrap`, when that finds nothing, at the text before that byte.
pub open spec fn next_multi_match(lines: Seq<String>, start: Position, src: Seq<char>, force_wrap: bool, scope: Option<(Position, Position)>)
    -> Option<Option<Position>>
{
    let n = lines.len() as int;
    let (min_line, max_line) = search_lines(n, scope);
    if n == 0 && min_line == 0 {
        None
    } else {
        let (j, starts) = joined_of(lines, min_line, max_line);
        let jb = byte_len(j) as int;
        match start_byte(lines, starts, min_line, max_line, start, 1, 0) {
            None => None,
            Some(sb) => {
                let fwd = if sb <= jb {
                    match joined_spans(j, sb, jb, src) {
                        None => None,
                        Some(sp) => joined_hit(first_span(sp), sb, starts, lines, min_line),
                    }
                } else {
                    Some(None)
                };
                match fwd {
                    Some(None) => if !force_wrap {
                        Some(None)
                    } else {
                        match joined_spans(j, 0, min2(sb, jb), src) {
                            None => None,
                            Some(sp) => joined_hit(first_span(sp), 0, starts, lines, min_line),
                        }
                    },
                    other => other,
                }
            },
        }
    }
}

/// The previous multi-line match of regex text `src` before `start` (see
/// `next_multi_match` for the result): the last match in the joined text
/// before the start's byte; with `force_wrap`, when there is none, the last
/// match in the text from that byte on (none when it is the end).
pub open spec fn prev_multi_match(lines: Seq<String>, start: Position, src: Seq<char>, force_wrap: bool, scope: Option<(Position, Position)>)
    -> Option<Option<Position>>
{
    let n = lines.len() as int;
    let (min_line, max_line) = search_lines(n, scope);
    if n == 0 && min_line == 0 {
        None
    } else {
        let (j, starts) = joined_of(lines, min_line, max_line);
        let jb = byte_len(j) as int;
        match start_byte(lines, starts, min_line, max_line, start, 0, jb) {
            None => None,
            Some(sb) => if sb > jb {
                None
            } else {
                match joined_spans(j, 0, sb, src) {
                    None => None,
                    Some(sp) => match joined_hit(last_span(sp), 0, starts, lines, min_line) {
                        Some(None) => if !force_wrap || sb >= jb {
                            Some(None)
                        } else {
                            match joined_spans(j, sb, jb, src) {
                                None => None,
                                Some(sp2) => joined_hit(last_span(sp2), sb, starts, lines, min_line),
                            }
                        },
                        other => other,
                    },
                }
            },
        }
    }
}

/// Byte offset of character index `k` of `line` (see `char_byte`).
fn char_byte_of(line: &str, k: usize) -> (r: usize)
    ensures
        r == char_byte(line@, k as int),
{
    let n = line.unicode_len();
    let m = if k < n { k } else { n };
    let prefix = substring(line, 0, m);
    assert(prefix@ =~= line@.take(m as int));
    byte_length(prefix.as_str())
}

/// Computes `joined_spans`.
fn joined_spans_of(joined: &str, a: usize, b: usize, re: &SearchRegex) -> (r: Option<Vec<(usize, usize)>>)
    ensures
        match r {
            Some(v) => joined_spans(joined@, a as int, b as int, re.source()) == Some(v@),
            None => joined_spans(joined@, a as int, b as int, re.source()) is None,
        },
{
    match (char_index_at_byte(joined, a), char_index_at_byte(joined, b)) {
        (Some(x), Some(y)) => {
            if x > y {
                return None;
            }
            proof {
                assert(chars_in_bytes(joined@, b as int, y as int));
            }
            let slice = substring(joined, x, y);
            Some(re.match_spans(slice.as_str()))
        },
        _ => None,
    }
}

/// Computes `joined_hit` for the first (or last) of `sp`.
fn joined_hit_of(sp: &Vec<(usize, usize)>, last: bool, off: usize, starts: &Vec<usize>, lines: &Vec<String>, min_line: usize)
    -> (r: Option<Option<Position>>)
    ensures
        r == joined_hit(if last { last_span(sp@) } else { first_span(sp@) }, off as int, starts@, lines@, min_line as int),
{
    if sp.len() == 0 {
        return Some(None);
    }
    let m = if last { sp[sp.len() - 1] } else { sp[0] };
    match off.checked_add(m.0) {
        None => None,
        Some(b) => match offset_position_checked(b, starts, lines, min_line) {
            None => None,
            Some(p) => Some(Some(p)),
        },
    }
}

/// Computes `start_byte`.
fn start_byte_of(lines: &Vec<String>, starts: &Vec<usize>, min_line: usize, max_line: usize, start: Position, extra: usize, outside: usize)
    -> (r: Option<usize>)
    requires
        extra <= 1,
    ensures
        match r {
            Some(b) => start_byte(lines@, starts@, min_line as int, max_line as int, start, extra as int, outside as int) == Some(b as int),
            None => start_byte(lines@, starts@, min_line as int, max_line as int, start, extra as int, outside as int) is None,
        },
{
    let (sl, sc) = start;
    if min_line <= sl && sl <= max_line {
        if sl >= lines.len() || sl - min_line >= starts.len() {
            return None;
        }
        let cb = char_byte_of(lines[sl].as_str(), sc);
        match starts[sl - min_line].checked_add(cb) {
            None => None,
            Some(x) => x.checked_add(extra),
        }
    } else {
        Some(outside)
    }
}

/// Computes `next_multi_match`.
fn next_multi_match_of(lines: &[String], start: Position, re: &SearchRegex, force_wrap: bool, scope: Option<(Position, Position)>)
    -> (r: Option<Option<Position>>)
    ensures
        r == next_multi_match(lines@, start, re.source(), force_wrap, scope),
{
    let n = lines.len();
    let (min_line, max_line) = match scope {
        Some((s, e)) => (s.0, e.0),
        None => (0, if n >= 1 { n - 1 } else { 0 }),
    };
    if n == 0 && min_line == 0 {
        return None;
    }
    let lv: Vec<String> = copy_lines_vec(lines);
    let (joined, starts) = build_joined_text(&lv, min_line, max_line);
    let ghost hi = joined_last(lines@.len() as int, max_line as int) + 1;
    assert(starts@ =~= joined_starts(lines@, min_line as int, hi));
    let jb = byte_length(joined.as_str());
    let sb = match start_byte_of(&lv, &starts, min_line, max_line, start, 1, 0) {
        Some(b) => b,
        None => return None,
    };
    if sb <= jb {
        let sp = match joined_spans_of(joined.as_str(), sb, jb, re) {
            Some(v) => v,
            None => return None,
        };
        match joined_hit_of(&sp, false, sb, &starts, &lv, min_line) {
            Some(None) => {},
            other => return other,
        }
    }
    if !force_wrap {
        return Some(None);
    }
    let we = if sb < jb { sb } else { jb };
    let sp = match joined_spans_of(joined.as_str(), 0, we, re) {
        Some(v) => v,
        None => return None,
    };
    joined_hit_of(&sp, false, 0, &starts, &lv, min_line)
}

/// Computes `prev_multi_match`.
fn prev_multi_match_of(lines: &[String], start: Position, re: &SearchRegex, force_wrap: bool, scope: Option<(Position, Position)>)
    -> (r: Option<Option<Position>>)
    ensures
        r == prev_multi_match(lines@, start, re.source(), force_wrap, scope),
{
    let n = lines.len();
    let (min_line, max_line) = match scope {
        Some((s, e)) => (s.0, e.0),
        None => (0, if n >= 1 { n - 1 } else { 0 }),
    };
    if n == 0 && min_line == 0 {
        return None;
    }
    let lv: Vec<String> = copy_lines_vec(lines);
    let (joined, starts) = build_joined_text(&lv, min_line, max_line);
    let ghost hi = joined_last(lines@.len() as int, max_line as int) + 1;
    assert(starts@ =~= joined_starts(lines@, min_line as int, hi));
    let jb = byte_length(joined.as_str());
    let sb = match start_byte_of(&lv, &starts, min_line, max_line, start, 0, jb) {
        Some(b) => b,
        None => return None,
    };
    if sb > jb {
        return None;
    }
    let sp = match joined_spans_of(joined.as_str(), 0, sb, re) {
        Some(v) => v,
        None => return None,
    };
    match joined_hit_of(&sp, true, 0, &starts, &lv, min_line) {
        Some(None) => {},
        other => return other,
    }
    if !force_wrap || sb >= jb {
        return Some(None);
    }
    let sp2 = match joined_spans_of(joined.as_str(), sb, jb, re) {
        Some(v) => v,
        None => return None,
    };
    joined_hit_of(&sp2, true, sb, &starts, &lv, min_line)
}

/// The next multi-line match after `start` (see `next_multi_match`), for
/// inputs where the search can be done.
pub fn find_next_multiline(lines: &[String], start: Position, re: &SearchRegex, force_wrap: bool, scope: Option<(Position, Position)>)
    -> (r: Option<Position>)
    requires
        next_multi_match(lines@, start, re.source(), force_wrap, scope) is Some,
    ensures
        next_multi_match(lines@, start, re.source(), force_wrap, scope) == Some(r),
{
    match next_multi_match_of(lines, start, re, force_wrap, scope) {
        Some(r) => r,
        None => None,
    }
}

/// `find_next_multiline` where the search can be done; `None` exactly when
/// `next_multi_match` is `None`.
pub fn find_next_multiline_checked(lines: &[String], start: Position, re: &SearchRegex, force_wrap: bool, scope: Option<(Position, Position)>)
    -> (r: Option<Option<Position>>)
    ensures
        r == next_multi_match(lines@, start, re.source(), force_wrap, scope),
{
    match next_multi_match_of(lines, start, re, force_wrap, scope) {
        Some(_) => Some(find_next_multiline(lines, start, re, force_wrap, scope)),
        None => None,
    }
}

/// The previous multi-line match before `start` (see `prev_multi_match`),
/// for inputs where the search can be done.
pub fn find_prev_multiline(lines: &[String], start: Position, re: &SearchRegex, force_wrap: bool, scope: Option<(Position, Position)>)
    -> (r: Option<Position>)
    requires
        prev_multi_match(lines@, start, re.source(), force_wrap, scope) is Some,
    ensures
        prev_multi_match(lines@, start, re.source(), force_wrap, scope) == Some(r),
{
    match prev_multi_match_of(lines, start, re, force_wrap, scope) {
        Some(r) => r,
        None => None,
    }
}

/// `find_prev_multiline` where the search can be done; `None` exactly when
/// `prev_multi_match` is `None`.
pub fn find_prev_multiline_checked(lines: &[String], start: Position, re: &SearchRegex, force_wrap: bool, scope: Option<(Position, Position)>)
    -> (r: Option<Option<Position>>)
    ensures
        r == prev_multi_match(lines@, start, re.source(), force_wrap, scope),
{
    match prev_multi_match_of(lines, start, re, force_wrap, scope) {
        Some(_) => Some(find_prev_multiline(lines, start, re, force_wrap, scope)),
        None => None,
    }
}

} // verus!

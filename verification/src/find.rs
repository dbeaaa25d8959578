//! Search support: the search history, search patterns (wildcards and
//! `\n` escapes), and the joined text that multi-line searches run on.
use vstd::prelude::*;
use crate::editor_state::{FileViewerState, Position};
use crate::text::{byte_len, byte_length, char_byte_len, chars_of, concat_str, copy_string, lemma_encode_concat, string_push};

verus! {

/// Number of patterns the search history keeps.
pub const MAX_FIND_HISTORY: usize = 100;

/// The texts of a list of strings.
pub open spec fn texts(v: Seq<String>) -> Seq<Seq<char>> {
    v.map_values(|s: String| s@)
}

// ---------------------------------------------------------------------------
// Search history
// ---------------------------------------------------------------------------

/// `h` without the entries equal to `pat`, in order.
pub open spec fn without(h: Seq<Seq<char>>, pat: Seq<char>) -> Seq<Seq<char>>
    decreases h.len(),
{
    if h.len() == 0 {
        h
    } else {
        let rest = without(h.drop_last(), pat);
        if h.last() == pat { rest } else { rest.push(h.last()) }
    }
}

/// History after searching for `pat`: it moves to (or is added at) the front,
/// and only the newest `MAX_FIND_HISTORY` entries are kept.
pub open spec fn history_after(h: Seq<Seq<char>>, pat: Seq<char>) -> Seq<Seq<char>> {
    let r = seq![pat] + without(h, pat);
    if r.len() > MAX_FIND_HISTORY { r.take(MAX_FIND_HISTORY as int) } else { r }
}

/// Put `pattern` at the front of the history `h` (see `history_after`).
fn push_history(h: &mut Vec<String>, pattern: String)
    ensures
        texts(final(h)@) == history_after(texts(old(h)@), pattern@),
{
    let ghost old_h = texts(h@);
    let mut kept: Vec<String> = Vec::new();
    let mut i: usize = 0;
    while i < h.len()
        invariant
            i <= h@.len(),
            texts(h@) == old_h,
            texts(kept@) == without(old_h.take(i as int), pattern@),
        decreases h@.len() - i,
    {
        let ghost pre = old_h.take(i as int);
        assert(old_h.take(i + 1).drop_last() =~= pre);
        assert(old_h.take(i + 1).last() == h@[i as int]@);
        if h[i] != pattern {
            kept.push(copy_string(&h[i]));
            assert(texts(kept@) =~= without(pre, pattern@).push(h@[i as int]@));
        }
        i = i + 1;
    }
    assert(old_h.take(h@.len() as int) =~= old_h);
    let mut r: Vec<String> = Vec::new();
    r.push(pattern);
    let mut j: usize = 0;
    while j < kept.len() && r.len() < MAX_FIND_HISTORY
        invariant
            j <= kept@.len(),
            r@.len() == j + 1,
            r@.len() <= MAX_FIND_HISTORY,
            texts(r@) == (seq![pattern@] + texts(kept@)).take(j + 1),
        decreases kept@.len() - j,
    {
        r.push(copy_string(&kept[j]));
        j = j + 1;
        assert(texts(r@) =~= (seq![pattern@] + texts(kept@)).take(j + 1));
    }
    assert(texts(r@) =~= history_after(old_h, pattern@));
    *h = r;
}

/// Remember a search pattern: it moves to the front of the history (without
/// duplicates), which keeps at most `MAX_FIND_HISTORY` entries.
pub fn add_to_history(state: &mut FileViewerState, pattern: String)
    ensures
        texts(final(state).find_history@) == history_after(texts(old(state).find_history@), pattern@),
        *final(state) == (FileViewerState { find_history: final(state).find_history, ..*old(state) }),
{
    push_history(&mut state.find_history, pattern);
}

// ---------------------------------------------------------------------------
// Patterns
// ---------------------------------------------------------------------------

/// Whether `s` holds the two characters `\` `n` at position `i`.
pub open spec fn escape_at(s: Seq<char>, i: int) -> bool {
    0 <= i && i + 1 < s.len() && s[i] == '\\' && s[i + 1] == 'n'
}

/// Whether a search pattern contains the typed escape `\n` (backslash, n),
/// which makes it a multi-line search.
pub fn pattern_is_multiline(pattern: &str) -> (b: bool)
    ensures
        b == exists|i: int| escape_at(pattern@, i),
{
    let chars = chars_of(pattern);
    let mut i: usize = 0;
    while i < chars.len()
        invariant
            chars@ == pattern@,
            forall|j: int| 0 <= j < i ==> !escape_at(pattern@, j),
        decreases chars@.len() - i,
    {
        if i + 1 < chars.len() && chars[i] == '\\' && chars[i + 1] == 'n' {
            assert(escape_at(pattern@, i as int));
            return true;
        }
        i = i + 1;
    }
    assert forall|j: int| !escape_at(pattern@, j) by {
        if 0 <= j < i {
        }
    }
    false
}

/// `s` with each typed `\n` (scanning left to right) turned into a newline.
pub open spec fn expand_escapes(s: Seq<char>) -> Seq<char>
    decreases s.len(),
{
    if s.len() == 0 {
        s
    } else if escape_at(s, 0) {
        seq!['\n'] + expand_escapes(s.skip(2))
    } else {
        seq![s[0]] + expand_escapes(s.skip(1))
    }
}

/// Turn each typed `\n` into a real newline, so that a regex can match
/// across the lines of the joined text.
pub fn expand_newline_escapes(pattern: &str) -> (r: String)
    ensures
        r@ == expand_escapes(pattern@),
{
    let chars = chars_of(pattern);
    let ghost s = pattern@;
    let mut r = String::new();
    let mut i: usize = 0;
    assert(s.skip(0) =~= s);
    assert(r@ + expand_escapes(s) =~= expand_escapes(s));
    while i < chars.len()
        invariant
            chars@ == s,
            i <= s.len(),
            r@ + expand_escapes(s.skip(i as int)) == expand_escapes(s),
        decreases s.len() - i,
    {
        let ghost before = r@;
        let ghost rest = s.skip(i as int);
        if i + 1 < chars.len() && chars[i] == '\\' && chars[i + 1] == 'n' {
            assert(escape_at(rest, 0));
            assert(rest.skip(2) =~= s.skip(i + 2));
            string_push(&mut r, '\n');
            i = i + 2;
            assert(r@ + expand_escapes(s.skip(i as int)) =~= before + (seq!['\n'] + expand_escapes(rest.skip(2))));
        } else {
            assert(!escape_at(rest, 0));
            assert(rest.skip(1) =~= s.skip(i + 1));
            assert(rest[0] == chars@[i as int]);
            string_push(&mut r, chars[i]);
            i = i + 1;
            assert(r@ + expand_escapes(s.skip(i as int)) =~= before + (seq![rest[0]] + expand_escapes(rest.skip(1))));
        }
    }
    assert(s.skip(i as int) =~= Seq::<char>::empty());
    assert(r@ + Seq::<char>::empty() =~= r@);
    r
}

/// Regex text for one character of a wildcard pattern: `*` is any run, `?`
/// any one character, regex metacharacters are escaped.
pub open spec fn wildcard_piece(c: char) -> Seq<char> {
    if c == '*' {
        seq!['.', '*']
    } else if c == '?' {
        seq!['.']
    } else if c == '.' || c == '^' || c == '$' || c == '+' || c == '|' || c == '(' || c == ')' || c == '['
        || c == ']' || c == '{' || c == '}' || c == '\\' {
        seq!['\\', c]
    } else {
        seq![c]
    }
}

/// Regex text for a wildcard pattern, character by character.
pub open spec fn wildcard_regex(s: Seq<char>) -> Seq<char>
    decreases s.len(),
{
    if s.len() == 0 {
        s
    } else {
        wildcard_regex(s.drop_last()) + wildcard_piece(s.last())
    }
}

/// Translate a wildcard pattern (`*` any characters, `?` one character) into
/// regex syntax, escaping the regex metacharacters.
pub fn wildcard_to_regex(pattern: &str) -> (r: String)
    ensures
        r@ == wildcard_regex(pattern@),
{
    let chars = chars_of(pattern);
    let ghost s = pattern@;
    let mut r = String::new();
    let mut i: usize = 0;
    while i < chars.len()
        invariant
            chars@ == s,
            i <= s.len(),
            r@ == wildcard_regex(s.take(i as int)),
        decreases s.len() - i,
    {
        let ch = chars[i];
        let ghost before = r@;
        assert(s.take(i + 1).drop_last() =~= s.take(i as int));
        assert(s.take(i + 1).last() == ch);
        if ch == '*' {
            string_push(&mut r, '.');
            string_push(&mut r, '*');
        } else if ch == '?' {
            string_push(&mut r, '.');
        } else if ch == '.' || ch == '^' || ch == '$' || ch == '+' || ch == '|' || ch == '(' || ch == ')'
            || ch == '[' || ch == ']' || ch == '{' || ch == '}' || ch == '\\' {
            string_push(&mut r, '\\');
            string_push(&mut r, ch);
        } else {
            string_push(&mut r, ch);
        }
        assert(r@ =~= before + wildcard_piece(ch));
        i = i + 1;
    }
    assert(s.take(s.len() as int) =~= s);
    r
}

// ---------------------------------------------------------------------------
// Joined text for multi-line search
// ---------------------------------------------------------------------------

/// Lines `lo..hi` (exclusive) of `d` joined with newlines.
pub open spec fn join_range(d: Seq<Seq<char>>, lo: int, hi: int) -> Seq<char>
    decreases hi - lo,
{
    if hi <= lo {
        Seq::empty()
    } else if hi == lo + 1 {
        d[lo]
    } else {
        join_range(d, lo, hi - 1) + seq!['\n'] + d[hi - 1]
    }
}

/// The last line that `build_joined_text` includes: `max_line` clamped to the
/// document (0 when it is empty).
pub open spec fn joined_last(len: int, max_line: int) -> int {
    let last = if len >= 1 { len - 1 } else { 0 };
    if max_line < last { max_line } else { last }
}

/// Join `lines[min_line..=max_line]` (`max_line` clamped to the document)
/// with newlines; also returns where each line starts in the result, in bytes.
pub fn build_joined_text(lines: &Vec<String>, min_line: usize, max_line: usize) -> (r: (String, Vec<usize>))
    requires
        lines@.len() > 0 || min_line > 0,
    ensures
        ({
            let hi = joined_last(lines@.len() as int, max_line as int) + 1;
            let d = texts(lines@);
            &&& r.0@ == join_range(d, min_line as int, hi)
            &&& r.1@.len() == if hi > min_line { hi - min_line } else { 0 }
            &&& forall|k: int| 0 <= k < r.1@.len() ==> #[trigger] r.1@[k] == (
                if k == 0 { 0usize } else { vstd::utf8::encode_utf8(join_range(d, min_line as int, min_line + k) + seq!['\n']).len() as usize })
        }),
{
    let last = if lines.len() >= 1 { lines.len() - 1 } else { 0 };
    let hi_incl = if max_line < last { max_line } else { last };
    let ghost d = texts(lines@);
    let mut joined = String::new();
    let mut starts: Vec<usize> = Vec::new();
    if min_line > hi_incl {
        return (joined, starts);
    }
    let mut idx = min_line;
    while idx <= hi_incl
        invariant
            min_line <= idx <= hi_incl + 1,
            hi_incl < lines@.len(),
            hi_incl < usize::MAX,
            d == texts(lines@),
            idx == min_line ==> joined@ == Seq::<char>::empty(),
            min_line < idx <= hi_incl ==> joined@ == join_range(d, min_line as int, idx as int) + seq!['\n'],
            idx == hi_incl + 1 ==> joined@ == join_range(d, min_line as int, idx as int),
            starts@.len() == idx - min_line,
            forall|k: int| 0 <= k < starts@.len() ==> #[trigger] starts@[k] == (
                if k == 0 { 0usize } else { vstd::utf8::encode_utf8(join_range(d, min_line as int, min_line + k) + seq!['\n']).len() as usize }),
        decreases hi_incl + 1 - idx,
    {
        let here = byte_length(joined.as_str());
        proof {
            if idx == min_line {
                assert(joined@ =~= Seq::<char>::empty());
                assert(vstd::utf8::encode_utf8(joined@) =~= Seq::<u8>::empty());
            }
        }
        starts.push(here);
        let ghost before = joined@;
        let ghost i0 = idx as int;
        joined.append(lines[idx].as_str());
        let ghost mid = joined@;
        if idx < hi_incl {
            string_push(&mut joined, '\n');
        }
        proof {
            assert(d[i0] == lines@[i0]@);
            assert(mid == before + d[i0]);
            if i0 == min_line {
                assert(join_range(d, min_line as int, i0 + 1) == d[i0]);
                assert(mid =~= d[i0]);
            } else {
                assert(join_range(d, min_line as int, i0 + 1) == join_range(d, min_line as int, i0) + seq!['\n'] + d[i0]);
                assert(mid =~= join_range(d, min_line as int, i0 + 1));
            }
        }
        idx = idx + 1;
    }
    (joined, starts)
}

/// Characters of `l` whose UTF-8 encoding takes exactly `b` bytes, if any.
pub open spec fn chars_in_bytes(l: Seq<char>, b: int, k: int) -> bool {
    0 <= k <= l.len() && vstd::utf8::encode_utf8(l.take(k)).len() == b
}

/// Line index (in `line_starts`) of byte `b` of the joined text: the last line
/// starting at or before it, or the first line.
pub open spec fn line_of_offset(line_starts: Seq<usize>, b: int) -> int
    decreases line_starts.len(),
{
    if line_starts.len() <= 1 {
        0
    } else if line_starts.last() <= b {
        line_starts.len() - 1
    } else {
        line_of_offset(line_starts.drop_last(), b)
    }
}

/// Convert byte `byte_offset` of the joined text back to `(line, column)`,
/// the column counted in characters.  `line_starts` are the byte offsets at
/// which the lines from `min_line` on start (increasing).
pub fn byte_offset_to_position(byte_offset: usize, line_starts: &Vec<usize>, lines: &Vec<String>, min_line: usize) -> (p: Position)
    requires
        line_starts@.len() > 0,
        forall|i: int, j: int| 0 <= i < j < line_starts@.len() ==> line_starts@[i] < line_starts@[j],
        ({
            let rel = line_of_offset(line_starts@, byte_offset as int);
            let abs = min_line + rel;
            &&& line_starts@[rel] <= byte_offset
            &&& abs < lines@.len()
            &&& exists|k: int| #[trigger] chars_in_bytes(lines@[abs]@, byte_offset - line_starts@[rel], k)
        }),
    ensures
        ({
            let rel = line_of_offset(line_starts@, byte_offset as int);
            let abs = min_line + rel;
            &&& p.0 == abs
            &&& chars_in_bytes(lines@[abs]@, byte_offset - line_starts@[rel], p.1 as int)
        }),
{
    let mut rel = line_starts.len() - 1;
    assert(line_starts@.take(rel + 1) =~= line_starts@);
    while rel > 0 && line_starts[rel] > byte_offset
        invariant
            rel < line_starts@.len(),
            line_of_offset(line_starts@.take(rel + 1), byte_offset as int) == line_of_offset(line_starts@, byte_offset as int),
        decreases rel,
    {
        assert(line_starts@.take(rel + 1).drop_last() =~= line_starts@.take(rel as int));
        rel = rel - 1;
    }
    proof {
        assert(line_starts@.take(rel + 1).last() == line_starts@[rel as int]);
        assert(line_starts@.take(rel + 1).len() == rel + 1);
        assert(rel == line_of_offset(line_starts@, byte_offset as int));
    }
    let nlines = lines.len();
    let abs = min_line + rel;
    let target = byte_offset - line_starts[rel];
    let chars = chars_of(lines[abs].as_str());
    let ghost l = lines@[abs as int]@;
    let ghost kstar = choose|k: int| chars_in_bytes(l, target as int, k);
    let mut k: usize = 0;
    let mut acc: usize = 0;
    assert(l.len() == chars.len());
    proof {
        assert(l.take(0) =~= Seq::<char>::empty());
        assert(vstd::utf8::encode_utf8(l.take(0)) =~= Seq::<u8>::empty());
    }
    while acc < target
        invariant
            chars@ == l,
            l.len() <= usize::MAX,
            chars_in_bytes(l, target as int, kstar),
            k <= kstar,
            acc == vstd::utf8::encode_utf8(l.take(k as int)).len(),
            acc <= target,
        decreases kstar - k,
    {
        proof {
            if k >= kstar {
                lemma_encode_take_mono(l, kstar, k as int);
            }
        }
        let w = char_byte_len(chars[k]);
        proof {
            lemma_encode_take_step(l, k as int);
            if k + 1 > kstar {
                lemma_encode_take_mono(l, kstar, k + 1);
            }
            if k + 1 <= kstar {
                lemma_encode_take_mono(l, k + 1, kstar);
            }
        }
        acc = acc + w;
        k = k + 1;
    }
    (abs, k)
}

/// Encoding one more character adds that character's bytes.
pub(crate) proof fn lemma_encode_take_step(l: Seq<char>, k: int)
    requires
        0 <= k < l.len(),
    ensures
        vstd::utf8::encode_utf8(l.take(k + 1)).len()
            == vstd::utf8::encode_utf8(l.take(k)).len() + vstd::utf8::encode_scalar(l[k] as u32).len(),
{
    assert(l.take(k + 1) =~= l.take(k) + seq![l[k]]);
    lemma_encode_concat(l.take(k), seq![l[k]]);
    assert(seq![l[k]].drop_first() =~= Seq::<char>::empty());
    assert(vstd::utf8::encode_utf8(Seq::<char>::empty()) =~= Seq::<u8>::empty());
    assert(vstd::utf8::encode_utf8(seq![l[k]]) =~= vstd::utf8::encode_scalar(l[k] as u32) + Seq::<u8>::empty());
}

/// Longer prefixes take at least as many bytes; strictly longer ones more.
pub(crate) proof fn lemma_encode_take_mono(l: Seq<char>, i: int, j: int)
    requires
        0 <= i <= j <= l.len(),
    ensures
        vstd::utf8::encode_utf8(l.take(i)).len() <= vstd::utf8::encode_utf8(l.take(j)).len(),
        i < j ==> vstd::utf8::encode_utf8(l.take(i)).len() < vstd::utf8::encode_utf8(l.take(j)).len(),
    decreases j - i,
{
    if i < j {
        lemma_encode_take_mono(l, i, j - 1);
        lemma_encode_take_step(l, j - 1);
        assert(vstd::utf8::encode_scalar(l[j - 1] as u32).len() >= 1);
    }
}
// ---------------------------------------------------------------------------
// Regular expressions (the `regex` crate)
// ---------------------------------------------------------------------------

#[verifier::external_type_specification]
#[verifier::external_body]
pub struct ExRegex(regex::Regex);

/// Whether `regex::Regex::new` accepts the pattern text.
pub uninterp spec fn regex_compiles(pattern: Seq<char>) -> bool;

/// Whether the regex compiled from `pattern` matches somewhere in `text`
/// (`regex::Regex::is_match`).
pub uninterp spec fn regex_is_match(pattern: Seq<char>, text: Seq<char>) -> bool;

/// The successive non-overlapping matches of the regex compiled from
/// `pattern` in `text`, as byte ranges (`regex::Regex::find_iter`).
pub uninterp spec fn regex_match_spans(pattern: Seq<char>, text: Seq<char>) -> Seq<(usize, usize)>;

/// Calls `regex::Regex::new`: `Some` exactly when the pattern compiles.
#[verifier::external_body]
fn compile_regex(pattern: &str) -> (r: Option<regex::Regex>)
    ensures
        r is Some == regex_compiles(pattern@),
{
    regex::Regex::new(pattern).ok()
}

/// A compiled regex together with the pattern text it was compiled from.
pub struct SearchRegex {
    source: String,
    re: regex::Regex,
}

impl SearchRegex {
    /// The pattern text this regex was compiled from.
    pub closed spec fn source(&self) -> Seq<char> {
        self.source@
    }

    /// Compile `pattern`; `None` when it is not a valid regex.
    pub fn new(pattern: String) -> (r: Option<Self>)
        ensures
            r is Some == regex_compiles(pattern@),
            r matches Some(x) ==> x.source() == pattern@,
    {
        match compile_regex(pattern.as_str()) {
            Some(re) => Some(SearchRegex { source: pattern, re }),
            None => None,
        }
    }

    /// Calls `regex::Regex::is_match` on `text`.
    #[verifier::external_body]
    pub(crate) fn is_match(&self, text: &str) -> (b: bool)
        ensures
            b == regex_is_match(self.source(), text@),
    {
        self.re.is_match(text)
    }

    /// Calls `regex::Regex::find_iter` on `text` and collects the byte ranges
    /// of the matches.
    #[verifier::external_body]
    pub(crate) fn match_spans(&self, text: &str) -> (r: Vec<(usize, usize)>)
        ensures
            r@ == regex_match_spans(self.source(), text@),
    {
        self.re.find_iter(text).map(|m| (m.start(), m.end())).collect()
    }
}

/// `(?i)` followed by `rest`: the case-insensitive form of a regex.
pub open spec fn case_insensitive(rest: Seq<char>) -> Seq<char> {
    seq!['(', '?', 'i', ')'] + rest
}

/// Regex text for a single-line search pattern: regex mode uses the pattern
/// as it is, wildcard mode translates it; both ignore case.
pub open spec fn single_line_source(pattern: Seq<char>, regex_mode: bool) -> Seq<char> {
    case_insensitive(if regex_mode { pattern } else { wildcard_regex(pattern) })
}

/// Regex text for a multi-line search pattern: typed `\n` become newlines,
/// and the regex ignores case, lets `^`/`$` match at line ends and `.` match
/// newlines.
pub open spec fn multi_line_source(pattern: Seq<char>) -> Seq<char> {
    seq!['(', '?', 'i', ')', '(', '?', 'm', 's', ')'] + expand_escapes(pattern)
}

/// A string of the given characters.
fn string_of(cs: &[char]) -> (r: String)
    ensures
        r@ == cs@,
{
    let mut r = String::new();
    let mut i: usize = 0;
    while i < cs.len()
        invariant
            i <= cs@.len(),
            r@ == cs@.take(i as int),
        decreases cs@.len() - i,
    {
        string_push(&mut r, cs[i]);
        i = i + 1;
        assert(r@ =~= cs@.take(i as int));
    }
    assert(cs@.take(cs@.len() as int) =~= cs@);
    r
}

/// Compile a search pattern for single-line search (see
/// `single_line_source`); `None` when the result is not a valid regex.
pub fn pattern_to_regex(pattern: &str, regex_mode: bool) -> (r: Option<SearchRegex>)
    ensures
        r is Some == regex_compiles(single_line_source(pattern@, regex_mode)),
        r matches Some(x) ==> x.source() == single_line_source(pattern@, regex_mode),
{
    let prefix = string_of(&['(', '?', 'i', ')']);
    let body = if regex_mode { String::from_str(pattern) } else { wildcard_to_regex(pattern) };
    let source = concat_str(&prefix, &body);
    proof {
        assert(seq!['(', '?', 'i', ')'] =~= prefix@);
    }
    SearchRegex::new(source)
}

/// Compile a search pattern for multi-line search (see `multi_line_source`);
/// `None` when the result is not a valid regex.
pub fn multiline_regex(pattern: &str) -> (r: Option<SearchRegex>)
    ensures
        r is Some == regex_compiles(multi_line_source(pattern@)),
        r matches Some(x) ==> x.source() == multi_line_source(pattern@),
{
    let prefix = string_of(&['(', '?', 'i', ')', '(', '?', 'm', 's', ')']);
    let body = expand_newline_escapes(pattern);
    let source = concat_str(&prefix, &body);
    proof {
        assert(seq!['(', '?', 'i', ')', '(', '?', 'm', 's', ')'] =~= prefix@);
    }
    SearchRegex::new(source)
}

// ---------------------------------------------------------------------------
// Lines with matches (filter mode)
// ---------------------------------------------------------------------------

/// First and last line a search covers: the scope's lines, or the whole
/// document (line 0 when it is empty).
pub open spec fn search_lines(len: int, scope: Option<(Position, Position)>) -> (int, int) {
    match scope {
        Some((s, e)) => (s.0 as int, e.0 as int),
        None => (0, if len >= 1 { len - 1 } else { 0 }),
    }
}

/// Smaller of two integers.
pub open spec fn min2(a: int, b: int) -> int {
    if a <= b { a } else { b }
}

/// The byte range of line `idx` (text `l`) that a single-line search looks
/// at: the whole line, cut at the scope's start column on its first line and
/// at its end column (clamped to the line) on its last line.
pub open spec fn slice_range(l: Seq<char>, idx: int, scope: Option<(Position, Position)>) -> (int, int) {
    let blen = byte_len(l) as int;
    match scope {
        Some((s, e)) => (
            if idx == s.0 { s.1 as int } else { 0 },
            if idx == e.0 { min2(e.1 as int, blen) } else { blen },
        ),
        None => (0, blen),
    }
}

/// The character index at byte offset `b` of `l`, when `b` lies between
/// characters (or at the end).
pub open spec fn char_at_byte(l: Seq<char>, b: int) -> Option<int> {
    if exists|k: int| #[trigger] chars_in_bytes(l, b, k) {
        Some(choose|k: int| #[trigger] chars_in_bytes(l, b, k))
    } else {
        None
    }
}

/// Whether a single-line search with regex text `src` finds a match on line
/// `idx`; `None` when the searched byte range does not lie between
/// characters.
pub open spec fn single_hit(lines: Seq<String>, idx: int, scope: Option<(Position, Position)>, src: Seq<char>) -> Option<bool> {
    let l = lines[idx]@;
    let r = slice_range(l, idx, scope);
    if r.0 < r.1 {
        match (char_at_byte(l, r.0), char_at_byte(l, r.1)) {
            (Some(a), Some(b)) => Some(regex_is_match(src, l.subrange(a, b))),
            _ => None,
        }
    } else {
        Some(false)
    }
}

/// Lines `lo..hi` (exclusive) that a single-line search hits; `None` when
/// one of them cannot be searched (see `single_hit`) or does not exist.
pub open spec fn single_hits(lines: Seq<String>, src: Seq<char>, scope: Option<(Position, Position)>, lo: int, hi: int) -> Option<Set<usize>>
    decreases hi - lo,
{
    if hi <= lo {
        Some(Set::empty())
    } else {
        match single_hits(lines, src, scope, lo, hi - 1) {
            None => None,
            Some(set) => if hi - 1 >= lines.len() {
                None
            } else {
                match single_hit(lines, hi - 1, scope, src) {
                    None => None,
                    Some(h) => Some(if h { set.insert((hi - 1) as usize) } else { set }),
                }
            },
        }
    }
}

/// Position of byte `b` of the joined text (lines from `min_line`, starting
/// at byte offsets `starts`): its line and character index; `None` when `b`
/// lies before the first line, past the document, or inside a character.
pub open spec fn offset_position(b: int, starts: Seq<usize>, lines: Seq<String>, min_line: int) -> Option<(usize, usize)> {
    let rel = line_of_offset(starts, b);
    if starts.len() == 0 || starts[rel] > b || min_line + rel >= lines.len() {
        None
    } else {
        match char_at_byte(lines[min_line + rel]@, b - starts[rel]) {
            Some(k) => Some(((min_line + rel) as usize, k as usize)),
            None => None,
        }
    }
}

/// Lines `lo..=hi` as a set.
pub open spec fn line_span(lo: int, hi: int) -> Set<usize> {
    Set::new(|l: usize| lo <= l <= hi)
}

/// Lines that the multi-line matches `spans` touch, from the line of a
/// match's first byte to the line of its last byte; `None` when a match
/// position cannot be mapped back (see `offset_position`).
pub open spec fn multi_hits(spans: Seq<(usize, usize)>, starts: Seq<usize>, lines: Seq<String>, min_line: int) -> Option<Set<usize>>
    decreases spans.len(),
{
    if spans.len() == 0 {
        Some(Set::empty())
    } else {
        match multi_hits(spans.drop_last(), starts, lines, min_line) {
            None => None,
            Some(set) => {
                let m = spans.last();
                let last = if m.1 >= 1 && m.1 - 1 >= m.0 { m.1 - 1 } else { m.0 as int };
                match (offset_position(m.0 as int, starts, lines, min_line), offset_position(last, starts, lines, min_line)) {
                    (Some(p), Some(q)) => Some(set.union(line_span(p.0 as int, q.0 as int))),
                    _ => None,
                }
            },
        }
    }
}

/// Lines shown around hit line `h`: up to `before` lines above it (not above
/// `min_line`), the line itself, and up to `after` lines below it (not past
/// `max_line` or the document).
pub open spec fn in_context(h: int, l: int, min_line: int, max_line: int, len: int, before: int, after: int) -> bool {
    let lo = if h >= before { h - before } else { 0 };
    let lo = if lo >= min_line { lo } else { min_line };
    let hi = min2(min2(h + after + 1, max_line + 1), len);
    l == h || (lo <= l && l < hi)
}

/// The hit lines with their context lines; `None` when the context range of
/// a hit overflows (where the computation would overflow).
pub open spec fn with_context(hits: Set<usize>, min_line: int, max_line: int, len: int, before: int, after: int) -> Option<Set<usize>> {
    if exists|h: usize| hits.contains(h) && (h + after + 1 > usize::MAX || max_line + 1 > usize::MAX) {
        None
    } else {
        Some(Set::new(|l: usize| exists|h: usize| hits.contains(h) && #[trigger] in_context(h as int, l as int, min_line, max_line, len, before, after)))
    }
}

/// The lines a filter shows for `pattern`, before context is added: `None`
/// when the search cannot run (see `single_hits`, `multi_hits`); no lines when
/// the pattern is not a valid regex.
pub open spec fn hit_lines(lines: Seq<String>, pattern: Seq<char>, regex_mode: bool, scope: Option<(Position, Position)>) -> Option<Set<usize>> {
    let (min_line, max_line) = search_lines(lines.len() as int, scope);
    if exists|i: int| escape_at(pattern, i) {
        let src = multi_line_source(pattern);
        if !regex_compiles(src) {
            Some(Set::empty())
        } else if lines.len() == 0 && min_line == 0 {
            None
        } else {
            let hi = joined_last(lines.len() as int, max_line) + 1;
            let joined = join_range(texts(lines), min_line, hi);
            let starts = Seq::new(if hi > min_line { (hi - min_line) as nat } else { 0 }, |k: int|
                if k == 0 { 0usize } else { vstd::utf8::encode_utf8(join_range(texts(lines), min_line, min_line + k) + seq!['\n']).len() as usize });
            multi_hits(regex_match_spans(src, joined), starts, lines, min_line)
        }
    } else {
        let src = single_line_source(pattern, regex_mode);
        if !regex_compiles(src) {
            Some(Set::empty())
        } else {
            let last = min2(max_line, if lines.len() >= 1 { lines.len() - 1 } else { 0 });
            single_hits(lines, src, scope, min_line, last + 1)
        }
    }
}

/// The lines a filter shows for `pattern` with `before`/`after` context lines.
pub open spec fn filtered_lines(lines: Seq<String>, pattern: Seq<char>, regex_mode: bool, scope: Option<(Position, Position)>, before: usize, after: usize) -> Option<Set<usize>> {
    let (min_line, max_line) = search_lines(lines.len() as int, scope);
    match hit_lines(lines, pattern, regex_mode, scope) {
        None => None,
        Some(hits) => with_context(hits, min_line, max_line, lines.len() as int, before as int, after as int),
    }
}

/// The character index at byte offset `b` of `line` (see `char_at_byte`).
pub(crate) fn char_index_at_byte(line: &str, b: usize) -> (r: Option<usize>)
    ensures
        match r {
            Some(k) => char_at_byte(line@, b as int) == Some(k as int),
            None => char_at_byte(line@, b as int) is None,
        },
{
    let chars = chars_of(line);
    let ghost l = line@;
    let n = chars.len();
    let mut k: usize = 0;
    let mut acc: usize = 0;
    proof {
        assert(l.take(0) =~= Seq::<char>::empty());
        assert(vstd::utf8::encode_utf8(l.take(0)) =~= Seq::<u8>::empty());
    }
    while k < n && acc < b
        invariant
            chars@ == l,
            l == line@,
            n == l.len(),
            k <= n,
            acc == vstd::utf8::encode_utf8(l.take(k as int)).len(),
            acc <= b,
            forall|j: int| 0 <= j < k ==> vstd::utf8::encode_utf8(#[trigger] l.take(j)).len() < b,
        decreases n - k,
    {
        let w = char_byte_len(chars[k]);
        proof {
            lemma_encode_take_step(l, k as int);
        }
        if w > b - acc {
            proof {
                assert forall|j: int| !chars_in_bytes(l, b as int, j) by {
                    if 0 <= j <= l.len() {
                        if j <= k {
                            if j < k {
                            }
                        } else {
                            lemma_encode_take_mono(l, k + 1, j);
                        }
                    }
                }
            }
            return None;
        }
        acc = acc + w;
        k = k + 1;
    }
    if acc == b {
        proof {
            assert(chars_in_bytes(l, b as int, k as int));
            assert forall|j: int| chars_in_bytes(l, b as int, j) implies j == k by {
                if j < k {
                } else if j > k {
                    lemma_encode_take_mono(l, k as int, j);
                }
            }
        }
        Some(k)
    } else {
        proof {
            assert forall|j: int| !chars_in_bytes(l, b as int, j) by {
                if 0 <= j <= l.len() {
                    if j < k {
                    } else if j > k {
                        lemma_encode_take_mono(l, k as int, j);
                    }
                }
            }
        }
        None
    }
}

/// Executable `offset_position`.
pub(crate) fn offset_position_checked(b: usize, starts: &Vec<usize>, lines: &Vec<String>, min_line: usize) -> (r: Option<Position>)
    ensures
        r == offset_position(b as int, starts@, lines@, min_line as int),
        r matches Some(p) ==> p.0 < lines@.len(),
{
    if starts.len() == 0 {
        return None;
    }
    let mut rel = starts.len() - 1;
    assert(starts@.take(rel + 1) =~= starts@);
    while rel > 0 && starts[rel] > b
        invariant
            rel < starts@.len(),
            line_of_offset(starts@.take(rel + 1), b as int) == line_of_offset(starts@, b as int),
        decreases rel,
    {
        assert(starts@.take(rel + 1).drop_last() =~= starts@.take(rel as int));
        rel = rel - 1;
    }
    proof {
        assert(starts@.take(rel + 1).last() == starts@[rel as int]);
        assert(starts@.take(rel + 1).len() == rel + 1);
        assert(rel == line_of_offset(starts@, b as int));
    }
    if starts[rel] > b {
        return None;
    }
    let n = lines.len();
    if min_line >= n || rel >= n - min_line {
        return None;
    }
    let abs = min_line + rel;
    match char_index_at_byte(lines[abs].as_str(), b - starts[rel]) {
        Some(k) => Some((abs, k)),
        None => None,
    }
}

/// Character positions at two byte offsets keep their order.
pub(crate) proof fn lemma_char_at_byte_order(l: Seq<char>, a: int, b: int)
    requires
        a < b,
        char_at_byte(l, a) is Some,
        char_at_byte(l, b) is Some,
    ensures
        char_at_byte(l, a)->0 < char_at_byte(l, b)->0,
{
    let ka = char_at_byte(l, a)->0;
    let kb = char_at_byte(l, b)->0;
    assert(chars_in_bytes(l, a, ka));
    assert(chars_in_bytes(l, b, kb));
    if ka >= kb {
        lemma_encode_take_mono(l, kb, ka);
    }
}

/// The elements of `v` as a set.
pub open spec fn set_of(v: Seq<usize>) -> Set<usize> {
    Set::new(|x: usize| v.contains(x))
}

/// Pushing `x` adds it to the set of elements.
proof fn lemma_set_of_push(v: Seq<usize>, x: usize)
    ensures
        set_of(v.push(x)) == set_of(v).insert(x),
{
    assert forall|y: usize| set_of(v.push(x)).contains(y) == set_of(v).insert(x).contains(y) by {
        if v.contains(y) {
            let j = choose|j: int| 0 <= j < v.len() && v[j] == y;
            assert(v.push(x)[j] == y);
        }
        if y == x {
            assert(v.push(x)[v.len() as int] == x);
        }
        if v.push(x).contains(y) {
            let j = choose|j: int| 0 <= j < v.push(x).len() && v.push(x)[j] == y;
            if j < v.len() {
                assert(v[j] == y);
            }
        }
    }
    assert(set_of(v.push(x)) =~= set_of(v).insert(x));
}

/// Whether a single-line search hits line `idx` (see `single_hit`).
fn single_hit_at(lines: &Vec<String>, idx: usize, scope: Option<(Position, Position)>, re: &SearchRegex) -> (r: Option<bool>)
    requires
        idx < lines@.len(),
    ensures
        r == single_hit(lines@, idx as int, scope, re.source()),
{
    let line = lines[idx].as_str();
    let blen = byte_length(line);
    let (a, b) = match scope {
        Some((s, e)) => (
            if idx == s.0 { s.1 } else { 0 },
            if idx == e.0 { if e.1 < blen { e.1 } else { blen } } else { blen },
        ),
        None => (0, blen),
    };
    if a < b {
        let ka = char_index_at_byte(line, a);
        let kb = char_index_at_byte(line, b);
        match (ka, kb) {
            (Some(x), Some(y)) => {
                proof {
                    lemma_char_at_byte_order(line@, a as int, b as int);
                    assert(chars_in_bytes(line@, b as int, y as int));
                }
                let slice = crate::text::substring(line, x, y);
                Some(re.is_match(slice.as_str()))
            },
            _ => None,
        }
    } else {
        Some(false)
    }
}

/// Lines `min_line..=last` that a single-line search hits (see `single_hits`).
fn single_line_hits(lines: &Vec<String>, re: &SearchRegex, scope: Option<(Position, Position)>, min_line: usize, last: usize) -> (r: Option<Vec<usize>>)
    requires
        last < usize::MAX,
    ensures
        match r {
            Some(v) => single_hits(lines@, re.source(), scope, min_line as int, last + 1) == Some(set_of(v@))
                && forall|i: int| 0 <= i < v@.len() ==> v@[i] < lines@.len(),
            None => single_hits(lines@, re.source(), scope, min_line as int, last + 1) is None,
        },
{
    let mut acc: Vec<usize> = Vec::new();
    if min_line > last {
        assert(set_of(acc@) =~= Set::<usize>::empty());
        return Some(acc);
    }
    let ghost src = re.source();
    let hi = last + 1;
    let mut i = min_line;
    assert(set_of(acc@) =~= Set::<usize>::empty());
    while i < hi
        invariant
            min_line <= i <= hi,
            hi == last + 1,
            src == re.source(),
            single_hits(lines@, src, scope, min_line as int, i as int) == Some(set_of(acc@)),
            forall|j: int| 0 <= j < acc@.len() ==> acc@[j] < lines@.len(),
        decreases hi - i,
    {
        if i >= lines.len() {
            proof {
                lemma_single_hits_none_stays(lines@, src, scope, min_line as int, i as int + 1, hi as int);
            }
            return None;
        }
        match single_hit_at(lines, i, scope, re) {
            None => {
                proof {
                    lemma_single_hits_none_stays(lines@, src, scope, min_line as int, i as int + 1, hi as int);
                }
                return None;
            },
            Some(h) => {
                let ghost before = set_of(acc@);
                if h {
                    let ghost old_acc = acc@;
                    acc.push(i);
                    proof {
                        lemma_set_of_push(old_acc, i);
                    }
                }
            },
        }
        i = i + 1;
    }
    Some(acc)
}

/// Once some line cannot be searched, neither can any longer range.
proof fn lemma_single_hits_none_stays(lines: Seq<String>, src: Seq<char>, scope: Option<(Position, Position)>, lo: int, mid: int, hi: int)
    requires
        lo < mid <= hi,
        single_hits(lines, src, scope, lo, mid) is None,
    ensures
        single_hits(lines, src, scope, lo, hi) is None,
    decreases hi - mid,
{
    if mid < hi {
        lemma_single_hits_none_stays(lines, src, scope, lo, mid, hi - 1);
    }
}

/// Byte offsets at which the lines of the joined text start (see
/// `build_joined_text`).
pub open spec fn joined_starts(lines: Seq<String>, min_line: int, hi: int) -> Seq<usize> {
    Seq::new(if hi > min_line { (hi - min_line) as nat } else { 0 }, |k: int|
        if k == 0 { 0usize } else { vstd::utf8::encode_utf8(join_range(texts(lines), min_line, min_line + k) + seq!['\n']).len() as usize })
}

/// Once a match cannot be mapped back, neither can a longer list of matches.
proof fn lemma_multi_hits_none_stays(spans: Seq<(usize, usize)>, starts: Seq<usize>, lines: Seq<String>, min_line: int, j: int, k: int)
    requires
        0 <= j <= k <= spans.len(),
        multi_hits(spans.take(j), starts, lines, min_line) is None,
    ensures
        multi_hits(spans.take(k), starts, lines, min_line) is None,
    decreases k - j,
{
    if j < k {
        lemma_multi_hits_none_stays(spans, starts, lines, min_line, j, k - 1);
        assert(spans.take(k).drop_last() =~= spans.take(k - 1));
    }
}

/// Lines that the multi-line matches of `re` touch in the joined text of
/// lines `min_line..=max_line` (see `multi_hits`).
fn multi_line_hits(lines: &Vec<String>, re: &SearchRegex, min_line: usize, max_line: usize) -> (r: Option<Vec<usize>>)
    requires
        lines@.len() > 0 || min_line > 0,
    ensures
        ({
            let hi = joined_last(lines@.len() as int, max_line as int) + 1;
            let joined = join_range(texts(lines@), min_line as int, hi);
            let m = multi_hits(regex_match_spans(re.source(), joined), joined_starts(lines@, min_line as int, hi), lines@, min_line as int);
            match r {
                Some(v) => m == Some(set_of(v@)) && forall|i: int| 0 <= i < v@.len() ==> v@[i] < lines@.len(),
                None => m is None,
            }
        }),
{
    let (joined, starts) = build_joined_text(lines, min_line, max_line);
    let ghost hi = joined_last(lines@.len() as int, max_line as int) + 1;
    assert(starts@ =~= joined_starts(lines@, min_line as int, hi));
    let spans = re.match_spans(joined.as_str());
    let ghost sp = spans@;
    let mut acc: Vec<usize> = Vec::new();
    let mut j: usize = 0;
    assert(set_of(acc@) =~= Set::<usize>::empty());
    assert(sp.take(0) =~= Seq::<(usize, usize)>::empty());
    let nl = lines.len();
    while j < spans.len()
        invariant
            j <= sp.len(),
            sp == spans@,
            nl == lines@.len(),
            hi == joined_last(lines@.len() as int, max_line as int) + 1,
            starts@ == joined_starts(lines@, min_line as int, hi),
            sp == regex_match_spans(re.source(), join_range(texts(lines@), min_line as int, hi)),
            multi_hits(sp.take(j as int), starts@, lines@, min_line as int) == Some(set_of(acc@)),
            forall|i: int| 0 <= i < acc@.len() ==> acc@[i] < lines@.len(),
        decreases sp.len() - j,
    {
        let m = spans[j];
        assert(sp.take(j + 1).drop_last() =~= sp.take(j as int));
        assert(sp.take(j + 1).last() == m);
        let p = match offset_position_checked(m.0, &starts, lines, min_line) {
            Some(p) => p,
            None => {
                proof {
                    lemma_multi_hits_none_stays(sp, starts@, lines@, min_line as int, j + 1, sp.len() as int);
                    assert(sp.take(sp.len() as int) =~= sp);
                }
                return None;
            },
        };
        let last = if m.1 >= 1 && m.1 - 1 >= m.0 { m.1 - 1 } else { m.0 };
        let q = match offset_position_checked(last, &starts, lines, min_line) {
            Some(q) => q,
            None => {
                proof {
                    lemma_multi_hits_none_stays(sp, starts@, lines@, min_line as int, j + 1, sp.len() as int);
                    assert(sp.take(sp.len() as int) =~= sp);
                }
                return None;
            },
        };
        let ghost before = set_of(acc@);
        if p.0 <= q.0 {
            let mut l = p.0;
            assert(line_span(p.0 as int, l - 1) =~= Set::<usize>::empty());
            assert(before.union(Set::<usize>::empty()) =~= before);
            while l <= q.0
                invariant
                    p.0 <= l <= q.0 + 1,
                    q.0 < lines@.len(),
                    nl == lines@.len(),
                    set_of(acc@) == before.union(line_span(p.0 as int, l - 1)),
                    forall|i: int| 0 <= i < acc@.len() ==> acc@[i] < lines@.len(),
                decreases q.0 + 1 - l,
            {
                let ghost old_acc = acc@;
                acc.push(l);
                proof {
                    lemma_set_of_push(old_acc, l);
                    assert(before.union(line_span(p.0 as int, l as int)) =~= before.union(line_span(p.0 as int, l - 1)).insert(l));
                }
                l = l + 1;
            }
        } else {
            assert(line_span(p.0 as int, q.0 as int) =~= Set::<usize>::empty());
            assert(before.union(Set::<usize>::empty()) =~= before);
        }
        j = j + 1;
    }
    assert(sp.take(sp.len() as int) =~= sp);
    Some(acc)
}

/// Whether line `y` is shown around one of the hits `hs`.
pub open spec fn covered(hs: Seq<usize>, y: int, min_line: int, max_line: int, len: int, before: int, after: int) -> bool
    decreases hs.len(),
{
    hs.len() > 0 && (covered(hs.drop_last(), y, min_line, max_line, len, before, after)
        || in_context(hs.last() as int, y, min_line, max_line, len, before, after))
}

/// `covered` is the existence of a hit whose context holds the line.
proof fn lemma_covered(hs: Seq<usize>, y: usize, min_line: int, max_line: int, len: int, before: int, after: int)
    ensures
        covered(hs, y as int, min_line, max_line, len, before, after)
            == exists|h: usize| set_of(hs).contains(h) && #[trigger] in_context(h as int, y as int, min_line, max_line, len, before, after),
    decreases hs.len(),
{
    if hs.len() > 0 {
        lemma_covered(hs.drop_last(), y, min_line, max_line, len, before, after);
        let last = hs.last();
        assert(hs[hs.len() - 1] == last);
        if covered(hs, y as int, min_line, max_line, len, before, after) {
            if covered(hs.drop_last(), y as int, min_line, max_line, len, before, after) {
                let h = choose|h: usize| set_of(hs.drop_last()).contains(h) && #[trigger] in_context(h as int, y as int, min_line, max_line, len, before, after);
                let j = choose|j: int| 0 <= j < hs.drop_last().len() && hs.drop_last()[j] == h;
                assert(hs[j] == h);
                assert(set_of(hs).contains(h));
            } else {
                assert(set_of(hs).contains(last));
            }
        }
        if exists|h: usize| set_of(hs).contains(h) && #[trigger] in_context(h as int, y as int, min_line, max_line, len, before, after) {
            let h = choose|h: usize| set_of(hs).contains(h) && #[trigger] in_context(h as int, y as int, min_line, max_line, len, before, after);
            let j = choose|j: int| 0 <= j < hs.len() && hs[j] == h;
            if j < hs.len() - 1 {
                assert(hs.drop_last()[j] == h);
                assert(set_of(hs.drop_last()).contains(h));
            }
        }
    } else {
        assert forall|h: usize| !set_of(hs).contains(h) by {}
    }
}

/// Strictly increasing.
pub open spec fn increasing(v: Seq<usize>) -> bool {
    forall|i: int, j: int| 0 <= i < j < v.len() ==> v[i] < v[j]
}

/// Add the context lines around each hit (see `with_context`); the result is
/// increasing.
fn add_context(hits: &Vec<usize>, min_line: usize, max_line: usize, len: usize, before: usize, after: usize) -> (r: Option<Vec<usize>>)
    requires
        forall|i: int| 0 <= i < hits@.len() ==> hits@[i] < len,
    ensures
        match r {
            Some(v) => with_context(set_of(hits@), min_line as int, max_line as int, len as int, before as int, after as int)
                == Some(set_of(v@)) && increasing(v@),
            None => with_context(set_of(hits@), min_line as int, max_line as int, len as int, before as int, after as int) is None,
        },
{
    let ghost hs = hits@;
    let mut i: usize = 0;
    while i < hits.len()
        invariant
            i <= hs.len(),
            hs == hits@,
            forall|k: int| 0 <= k < hs.len() ==> hs[k] < len,
            forall|k: int| 0 <= k < i ==> !(hs[k] + after + 1 > usize::MAX || max_line + 1 > usize::MAX),
        decreases hs.len() - i,
    {
        let h = hits[i];
        if after > usize::MAX - 1 - h || max_line == usize::MAX {
            proof {
                assert(set_of(hs).contains(h));
            }
            return None;
        }
        i = i + 1;
    }
    proof {
        assert forall|h: usize| set_of(hs).contains(h) implies !(h + after + 1 > usize::MAX || max_line + 1 > usize::MAX) by {
            let j = choose|j: int| 0 <= j < hs.len() && hs[j] == h;
        }
    }
    let mut marks: Vec<bool> = Vec::new();
    let mut x: usize = 0;
    while x < len
        invariant
            x <= len,
            marks@.len() == x,
            forall|y: int| 0 <= y < x ==> !marks@[y],
            hs == hits@,
            forall|k: int| 0 <= k < hs.len() ==> hs[k] < len,
            forall|k: int| 0 <= k < hs.len() ==> !(hs[k] + after + 1 > usize::MAX || max_line + 1 > usize::MAX),
        decreases len - x,
    {
        marks.push(false);
        x = x + 1;
    }
    let mut j: usize = 0;
    assert(hs.take(0) =~= Seq::<usize>::empty());
    proof {
        if hs.len() > 0 {
            assert(!(hs[0] + after + 1 > usize::MAX || max_line + 1 > usize::MAX));
        }
    }
    while j < hits.len()
        invariant
            j <= hs.len(),
            hs == hits@,
            marks@.len() == len,
            forall|k: int| 0 <= k < hs.len() ==> hs[k] < len,
            forall|k: int| 0 <= k < hs.len() ==> hs[k] + after + 1 <= usize::MAX,
            hs.len() > 0 ==> max_line < usize::MAX,
            forall|y: int| 0 <= y < len ==> marks@[y] == covered(hs.take(j as int), y, min_line as int, max_line as int, len as int, before as int, after as int),
        decreases hs.len() - j,
    {
        let h = hits[j];
        let lo0 = if h >= before { h - before } else { 0 };
        let lo = if lo0 >= min_line { lo0 } else { min_line };
        let a = h + after + 1;
        let b = if a < max_line + 1 { a } else { max_line + 1 };
        let hi = if b < len { b } else { len };
        let ghost before_marks = marks@;
        assert(forall|z: int| 0 <= z < len ==> before_marks[z] == covered(hs.take(j as int), z, min_line as int, max_line as int, len as int, before as int, after as int));
        let mut y = lo;
        if lo < hi {
            while y < hi
                invariant
                    lo <= y <= hi,
                    hi <= len,
                    marks@.len() == len,
                    forall|z: int| 0 <= z < len ==> marks@[z] == (before_marks[z] || (lo <= z < y)),
                decreases hi - y,
            {
                marks.set(y, true);
                y = y + 1;
            }
        }
        let ghost mid = marks@;
        assert(forall|z: int| 0 <= z < len ==> #[trigger] mid[z] == (before_marks[z] || (lo <= z && z < hi)));
        marks.set(h, true);
        proof {
            assert(hs.take(j + 1).drop_last() =~= hs.take(j as int));
            assert(hs.take(j + 1).last() == h);
            assert forall|z: int| 0 <= z < len implies marks@[z] == covered(hs.take(j + 1), z, min_line as int, max_line as int, len as int, before as int, after as int) by {
                assert(in_context(h as int, z, min_line as int, max_line as int, len as int, before as int, after as int)
                    == (z == h || (lo <= z && z < hi)));
                assert(covered(hs.take(j + 1), z, min_line as int, max_line as int, len as int, before as int, after as int)
                    == (covered(hs.take(j as int), z, min_line as int, max_line as int, len as int, before as int, after as int)
                        || in_context(h as int, z, min_line as int, max_line as int, len as int, before as int, after as int)));
                if z == h as int {
                    assert(marks@[z]);
                } else {
                    assert(marks@[z] == mid[z]);
                    assert(mid[z] == (before_marks[z] || (lo <= z && z < hi)));
                }
                assert(marks@[z] == (before_marks[z] || (lo <= z && z < hi) || z == h));
            }
        }
        j = j + 1;
    }
    assert(hs.take(hs.len() as int) =~= hs);
    let mut v: Vec<usize> = Vec::new();
    let mut y: usize = 0;
    while y < len
        invariant
            y <= len,
            marks@.len() == len,
            forall|k: int| 0 <= k < v@.len() ==> v@[k] < y,
            increasing(v@),
            forall|z: usize| z < y ==> (v@.contains(z) == marks@[z as int]),
        decreases len - y,
    {
        if marks[y] {
            let ghost old_v = v@;
            v.push(y);
            proof {
                assert forall|z: usize| z <= y implies (v@.contains(z) == marks@[z as int]) by {
                    if z < y {
                        if old_v.contains(z) {
                            let k = choose|k: int| 0 <= k < old_v.len() && old_v[k] == z;
                            assert(v@[k] == z);
                        }
                        if v@.contains(z) {
                            let k = choose|k: int| 0 <= k < v@.len() && v@[k] == z;
                            if k < old_v.len() {
                                assert(old_v[k] == z);
                            }
                        }
                    } else {
                        assert(v@[old_v.len() as int] == y);
                    }
                }
            }
        } else {
            proof {
                assert(!v@.contains(y)) by {
                    if v@.contains(y) {
                        let k = choose|k: int| 0 <= k < v@.len() && v@[k] == y;
                    }
                }
            }
        }
        y = y + 1;
    }
    proof {
        let ws = with_context(set_of(hs), min_line as int, max_line as int, len as int, before as int, after as int)->0;
        assert forall|z: usize| set_of(v@).contains(z) == ws.contains(z) by {
            lemma_covered(hs, z, min_line as int, max_line as int, len as int, before as int, after as int);
            if z < len {
            } else {
                if v@.contains(z) {
                    let k = choose|k: int| 0 <= k < v@.len() && v@[k] == z;
                }
                if exists|h: usize| set_of(hs).contains(h) && #[trigger] in_context(h as int, z as int, min_line as int, max_line as int, len as int, before as int, after as int) {
                    let h = choose|h: usize| set_of(hs).contains(h) && #[trigger] in_context(h as int, z as int, min_line as int, max_line as int, len as int, before as int, after as int);
                    let k = choose|k: int| 0 <= k < hs.len() && hs[k] == h;
                }
            }
        }
        assert(set_of(v@) =~= ws);
    }
    Some(v)
}

/// The lines a filter shows, or `None` where the search cannot run (see
/// `filtered_lines`).
fn lines_with_matches(
    lines: &Vec<String>,
    pattern: &str,
    regex_mode: bool,
    scope: Option<(Position, Position)>,
    before: usize,
    after: usize,
) -> (r: Option<Vec<usize>>)
    ensures
        match r {
            Some(v) => filtered_lines(lines@, pattern@, regex_mode, scope, before, after) == Some(set_of(v@)) && increasing(v@),
            None => filtered_lines(lines@, pattern@, regex_mode, scope, before, after) is None,
        },
{
    let n = lines.len();
    let (min_line, max_line) = match scope {
        Some((s, e)) => (s.0, e.0),
        None => (0, if n >= 1 { n - 1 } else { 0 }),
    };
    let hits = if pattern_is_multiline(pattern) {
        match multiline_regex(pattern) {
            None => {
                let v: Vec<usize> = Vec::new();
                proof {
                    assert(set_of(v@) =~= Set::<usize>::empty());
                }
                return add_context(&v, min_line, max_line, n, before, after);
            },
            Some(re) => {
                if n == 0 && min_line == 0 {
                    return None;
                }
                match multi_line_hits(lines, &re, min_line, max_line) {
                    Some(h) => h,
                    None => return None,
                }
            },
        }
    } else {
        match pattern_to_regex(pattern, regex_mode) {
            None => {
                let v: Vec<usize> = Vec::new();
                proof {
                    assert(set_of(v@) =~= Set::<usize>::empty());
                }
                return add_context(&v, min_line, max_line, n, before, after);
            },
            Some(re) => {
                let last = if max_line < (if n >= 1 { n - 1 } else { 0 }) { max_line } else { if n >= 1 { n - 1 } else { 0 } };
                match single_line_hits(lines, &re, scope, min_line, last) {
                    Some(h) => h,
                    None => return None,
                }
            },
        }
    };
    add_context(&hits, min_line, max_line, n, before, after)
}

/// Lines with a match of `pattern` (and `context_before` / `context_after`
/// lines around each), in increasing order; no lines when the pattern is not
/// a valid regex.  Typed `\n` in the pattern searches across lines.
pub fn get_lines_with_matches_and_context(
    lines: &Vec<String>,
    pattern: &str,
    regex_mode: bool,
    scope: Option<(Position, Position)>,
    context_before: usize,
    context_after: usize,
) -> (r: Vec<usize>)
    requires
        filtered_lines(lines@, pattern@, regex_mode, scope, context_before, context_after) is Some,
    ensures
        filtered_lines(lines@, pattern@, regex_mode, scope, context_before, context_after) == Some(set_of(r@)),
        increasing(r@),
{
    match lines_with_matches(lines, pattern, regex_mode, scope, context_before, context_after) {
        Some(v) => v,
        None => Vec::new(),
    }
}

/// Lines with a match of `pattern`, in increasing order.
pub fn get_lines_with_matches(lines: &Vec<String>, pattern: &str, regex_mode: bool, scope: Option<(Position, Position)>) -> (r: Vec<usize>)
    requires
        filtered_lines(lines@, pattern@, regex_mode, scope, 0, 0) is Some,
    ensures
        filtered_lines(lines@, pattern@, regex_mode, scope, 0, 0) == Some(set_of(r@)),
        increasing(r@),
{
    get_lines_with_matches_and_context(lines, pattern, regex_mode, scope, 0, 0)
}

/// `get_lines_with_matches_and_context` where the search can run; `None`
/// where a searched position does not fall between characters (or the
/// context range would overflow), where the search cannot be done.
pub fn get_lines_with_matches_checked(
    lines: &Vec<String>,
    pattern: &str,
    regex_mode: bool,
    scope: Option<(Position, Position)>,
    context_before: usize,
    context_after: usize,
) -> (r: Option<Vec<usize>>)
    ensures
        match r {
            Some(v) => filtered_lines(lines@, pattern@, regex_mode, scope, context_before, context_after) == Some(set_of(v@))
                && increasing(v@),
            None => filtered_lines(lines@, pattern@, regex_mode, scope, context_before, context_after) is None,
        },
{
    match lines_with_matches(lines, pattern, regex_mode, scope, context_before, context_after) {
        Some(_) => Some(get_lines_with_matches_and_context(lines, pattern, regex_mode, scope, context_before, context_after)),
        None => None,
    }
}

/// A line index found by `line_of_offset` is never negative.
proof fn lemma_line_of_offset_nonneg(starts: Seq<usize>, b: int)
    ensures
        line_of_offset(starts, b) >= 0,
    decreases starts.len(),
{
    if starts.len() > 1 && starts.last() > b {
        lemma_line_of_offset_nonneg(starts.drop_last(), b);
    }
}

/// Lines a single-line search hits exist in the document.
proof fn lemma_single_hits_in_document(lines: Seq<String>, src: Seq<char>, scope: Option<(Position, Position)>, lo: int, hi: int)
    requires
        lo >= 0,
    ensures
        single_hits(lines, src, scope, lo, hi) matches Some(s) ==> forall|x: usize| s.contains(x) ==> x < lines.len(),
    decreases hi - lo,
{
    if hi > lo {
        lemma_single_hits_in_document(lines, src, scope, lo, hi - 1);
        if let Some(s) = single_hits(lines, src, scope, lo, hi) {
            let prev = single_hits(lines, src, scope, lo, hi - 1)->0;
            assert forall|x: usize| s.contains(x) implies x < lines.len() by {
                if x != (hi - 1) as usize {
                    assert(prev.contains(x));
                }
            }
        }
    }
}

/// Lines a multi-line search touches exist in the document.
proof fn lemma_multi_hits_in_document(spans: Seq<(usize, usize)>, starts: Seq<usize>, lines: Seq<String>, min_line: int)
    requires
        min_line >= 0,
    ensures
        multi_hits(spans, starts, lines, min_line) matches Some(s) ==> forall|x: usize| s.contains(x) ==> x < lines.len(),
    decreases spans.len(),
{
    if spans.len() > 0 {
        lemma_multi_hits_in_document(spans.drop_last(), starts, lines, min_line);
        if let Some(s) = multi_hits(spans, starts, lines, min_line) {
            let prev = multi_hits(spans.drop_last(), starts, lines, min_line)->0;
            let m = spans.last();
            let last = if m.1 >= 1 && m.1 - 1 >= m.0 { m.1 - 1 } else { m.0 as int };
            let q = offset_position(last, starts, lines, min_line)->0;
            let p = offset_position(m.0 as int, starts, lines, min_line)->0;
            lemma_line_of_offset_nonneg(starts, last);
            assert(q.0 < lines.len());
            assert forall|x: usize| s.contains(x) implies x < lines.len() by {
                if !prev.contains(x) {
                    assert(line_span(p.0 as int, q.0 as int).contains(x));
                }
            }
        }
    }
}

/// Every line a filter shows exists in the document.
pub proof fn lemma_filtered_in_document(lines: Seq<String>, pattern: Seq<char>, regex_mode: bool, scope: Option<(Position, Position)>, before: usize, after: usize, v: Seq<usize>)
    requires
        filtered_lines(lines, pattern, regex_mode, scope, before, after) == Some(set_of(v)),
    ensures
        forall|i: int| 0 <= i < v.len() ==> v[i] < lines.len(),
{
    let (min_line, max_line) = search_lines(lines.len() as int, scope);
    let last = min2(max_line, if lines.len() >= 1 { lines.len() - 1 } else { 0 });
    lemma_single_hits_in_document(lines, single_line_source(pattern, regex_mode), scope, min_line, last + 1);
    let hi = joined_last(lines.len() as int, max_line) + 1;
    let joined = join_range(texts(lines), min_line, hi);
    lemma_multi_hits_in_document(regex_match_spans(multi_line_source(pattern), joined), joined_starts(lines, min_line, hi), lines, min_line);
    assert(joined_starts(lines, min_line, hi) =~= Seq::new(if hi > min_line { (hi - min_line) as nat } else { 0 }, |k: int|
        if k == 0 { 0usize } else { vstd::utf8::encode_utf8(join_range(texts(lines), min_line, min_line + k) + seq!['\n']).len() as usize }));
    assert forall|i: int| 0 <= i < v.len() implies v[i] < lines.len() by {
        assert(set_of(v).contains(v[i]));
    }
}

// ---------------------------------------------------------------------------
// From a position to its byte offset in the joined text and back
// ---------------------------------------------------------------------------

/// A newline takes one byte.
proof fn lemma_newline_bytes()
    ensures
        vstd::utf8::encode_utf8(seq!['\n']).len() == 1,
{
    assert(seq!['\n'].drop_first() =~= Seq::<char>::empty());
    assert(vstd::utf8::encode_utf8(Seq::<char>::empty()) =~= Seq::<u8>::empty());
}

/// Bytes of lines `lo..m` joined with newlines, plus a final newline.
pub open spec fn joined_bytes(d: Seq<Seq<char>>, lo: int, m: int) -> int {
    vstd::utf8::encode_utf8(join_range(d, lo, m) + seq!['\n']).len() as int
}

/// Where line `lo + k` starts in the joined text, in bytes.
pub open spec fn joined_start(d: Seq<Seq<char>>, lo: int, k: int) -> int {
    if k == 0 { 0 } else { joined_bytes(d, lo, lo + k) }
}

/// Adding line `lo + k` (and its newline) adds its bytes and one.
proof fn lemma_joined_bytes_step(d: Seq<Seq<char>>, lo: int, k: int)
    requires
        0 <= lo,
        0 <= k,
        lo + k < d.len(),
    ensures
        joined_bytes(d, lo, lo + k + 1) == joined_start(d, lo, k) + vstd::utf8::encode_utf8(d[lo + k]).len() + 1,
{
    let nl = seq!['\n'];
    lemma_newline_bytes();
    let j1 = join_range(d, lo, lo + k + 1);
    if k == 0 {
        assert(j1 == d[lo]);
        crate::text::lemma_encode_concat(d[lo], nl);
    } else {
        let j0 = join_range(d, lo, lo + k);
        assert(j1 == j0 + nl + d[lo + k]);
        assert(j1 + nl =~= (j0 + nl) + (d[lo + k] + nl));
        crate::text::lemma_encode_concat(j0 + nl, d[lo + k] + nl);
        crate::text::lemma_encode_concat(d[lo + k], nl);
    }
}

/// Joining more lines takes more bytes.
proof fn lemma_joined_bytes_grow(d: Seq<Seq<char>>, lo: int, m: int, h: int)
    requires
        0 <= lo < m <= h <= d.len(),
    ensures
        joined_bytes(d, lo, m) <= joined_bytes(d, lo, h),
    decreases h - m,
{
    if m < h {
        lemma_joined_bytes_grow(d, lo, m, h - 1);
        lemma_joined_bytes_step(d, lo, h - 1 - lo);
    }
}

/// The line starts that `joined_starts` lists are `joined_start`, when the
/// joined text fits in `usize`.
proof fn lemma_joined_starts_value(lines: Seq<String>, min_line: int, hi: int, k: int)
    requires
        0 <= min_line,
        0 <= k,
        min_line + k < hi <= lines.len(),
        joined_bytes(texts(lines), min_line, hi) <= usize::MAX,
    ensures
        joined_starts(lines, min_line, hi)[k] == joined_start(texts(lines), min_line, k),
{
    if k > 0 {
        lemma_joined_bytes_grow(texts(lines), min_line, min_line + k, hi);
    }
}

/// Each line of the joined text starts one byte after the end of the line
/// before it.
proof fn lemma_joined_starts_step(lines: Seq<String>, min_line: int, hi: int, k: int)
    requires
        0 <= min_line,
        0 <= k,
        min_line + k + 1 < hi <= lines.len(),
        joined_bytes(texts(lines), min_line, hi) <= usize::MAX,
    ensures
        joined_starts(lines, min_line, hi)[k + 1] == joined_starts(lines, min_line, hi)[k]
            + vstd::utf8::encode_utf8(lines[min_line + k]@).len() + 1,
{
    let d = texts(lines);
    assert(d[min_line + k] == lines[min_line + k]@);
    lemma_joined_starts_value(lines, min_line, hi, k);
    lemma_joined_starts_value(lines, min_line, hi, k + 1);
    lemma_joined_bytes_step(d, min_line, k);
}

/// The line starts of the joined text increase.
proof fn lemma_joined_starts_increase(lines: Seq<String>, min_line: int, hi: int, i: int, j: int)
    requires
        0 <= min_line,
        0 <= i < j,
        min_line + j < hi <= lines.len(),
        joined_bytes(texts(lines), min_line, hi) <= usize::MAX,
    ensures
        joined_starts(lines, min_line, hi)[i] < joined_starts(lines, min_line, hi)[j],
    decreases j - i,
{
    lemma_joined_starts_step(lines, min_line, hi, j - 1);
    if i < j - 1 {
        lemma_joined_starts_increase(lines, min_line, hi, i, j - 1);
    }
}

/// In increasing line starts, the line of a byte at or after start `k` and
/// before start `k + 1` (if any) is `k`.
proof fn lemma_line_of_offset_at(starts: Seq<usize>, b: int, k: int)
    requires
        0 <= k < starts.len(),
        forall|i: int, j: int| 0 <= i < j < starts.len() ==> starts[i] < starts[j],
        starts[k] <= b,
        k + 1 < starts.len() ==> b < starts[k + 1],
    ensures
        line_of_offset(starts, b) == k,
    decreases starts.len(),
{
    if starts.len() <= 1 {
    } else if starts.last() <= b {
        if k < starts.len() - 1 {
            assert(starts[k + 1] <= starts[starts.len() - 1]) by {
                if k + 1 < starts.len() - 1 {
                    assert(starts[k + 1] < starts[starts.len() - 1]);
                }
            }
        }
    } else {
        let s2 = starts.drop_last();
        assert(k != starts.len() - 1);
        lemma_line_of_offset_at(s2, b, k);
    }
}

/// Position round trip: for a line `l` of the joined range of lines
/// `min_line..hi` and a column `c` within it, the byte offset of `(l, c)` in
/// the joined text lies in line `l`'s part (the line starts increase), and
/// it maps back to line `l` and to column `c` and no other.  (The joined
/// text, with a final newline, fits in `usize`.)
pub proof fn lemma_offset_round_trip(lines: Seq<String>, min_line: int, hi: int, l: int, c: int)
    requires
        0 <= min_line <= l < hi <= lines.len(),
        0 <= c <= lines[l]@.len(),
        joined_bytes(texts(lines), min_line, hi) <= usize::MAX,
    ensures
        ({
            let starts = joined_starts(lines, min_line, hi);
            let rel = l - min_line;
            let b = starts[rel] + vstd::utf8::encode_utf8(lines[l]@.take(c)).len();
            &&& forall|i: int, j: int| 0 <= i < j < starts.len() ==> starts[i] < starts[j]
            &&& line_of_offset(starts, b) == rel
            &&& chars_in_bytes(lines[l]@, b - starts[rel], c)
            &&& forall|k: int| #[trigger] chars_in_bytes(lines[l]@, b - starts[rel], k) ==> k == c
        }),
{
    let starts = joined_starts(lines, min_line, hi);
    let rel = l - min_line;
    let line = lines[l]@;
    let b = starts[rel] + vstd::utf8::encode_utf8(line.take(c)).len();
    assert forall|i: int, j: int| 0 <= i < j < starts.len() implies starts[i] < starts[j] by {
        lemma_joined_starts_increase(lines, min_line, hi, i, j);
    }
    lemma_encode_take_mono(line, c, line.len() as int);
    assert(line.take(line.len() as int) =~= line);
    if rel + 1 < starts.len() {
        lemma_joined_starts_step(lines, min_line, hi, rel);
    }
    lemma_line_of_offset_at(starts, b, rel);
    assert forall|k: int| #[trigger] chars_in_bytes(line, b - starts[rel], k) implies k == c by {
        if k < c {
            lemma_encode_take_mono(line, k, c);
        } else if k > c {
            lemma_encode_take_mono(line, c, k);
        }
    }
}

// ---------------------------------------------------------------------------
// Wildcard patterns without wildcards search for their literal text
// ---------------------------------------------------------------------------

/// Characters with a special meaning in regex syntax outside a character
/// class.
pub open spec fn regex_special(c: char) -> bool {
    c == '\\' || c == '.' || c == '+' || c == '*' || c == '?' || c == '(' || c == ')' || c == '|' || c == '['
        || c == ']' || c == '{' || c == '}' || c == '^' || c == '$'
}

/// The text a regex matches when it is plain literal text: an ordinary
/// character stands for itself and a backslash before a special character
/// for that character; `None` when the regex uses any regex operator (an
/// unescaped special character, or a backslash before anything else).
pub open spec fn literal_text(r: Seq<char>) -> Option<Seq<char>>
    decreases r.len(),
{
    if r.len() == 0 {
        Some(Seq::empty())
    } else if r[0] == '\\' {
        if r.len() >= 2 && regex_special(r[1]) {
            match literal_text(r.skip(2)) {
                Some(t) => Some(seq![r[1]] + t),
                None => None,
            }
        } else {
            None
        }
    } else if regex_special(r[0]) {
        None
    } else {
        match literal_text(r.skip(1)) {
            Some(t) => Some(seq![r[0]] + t),
            None => None,
        }
    }
}

/// Literal regexes put together stand for their texts put together.
proof fn lemma_literal_concat(a: Seq<char>, b: Seq<char>)
    requires
        literal_text(a) is Some,
        literal_text(b) is Some,
    ensures
        literal_text(a + b) == Some(literal_text(a)->0 + literal_text(b)->0),
    decreases a.len(),
{
    if a.len() == 0 {
        assert(a + b =~= b);
        assert(literal_text(a)->0 + literal_text(b)->0 =~= literal_text(b)->0);
    } else if a[0] == '\\' {
        assert((a + b)[0] == '\\');
        assert((a + b)[1] == a[1]);
        assert((a + b).skip(2) =~= a.skip(2) + b);
        lemma_literal_concat(a.skip(2), b);
        assert(seq![a[1]] + (literal_text(a.skip(2))->0 + literal_text(b)->0)
            =~= (seq![a[1]] + literal_text(a.skip(2))->0) + literal_text(b)->0);
    } else {
        assert((a + b)[0] == a[0]);
        assert((a + b).skip(1) =~= a.skip(1) + b);
        lemma_literal_concat(a.skip(1), b);
        assert(seq![a[0]] + (literal_text(a.skip(1))->0 + literal_text(b)->0)
            =~= (seq![a[0]] + literal_text(a.skip(1))->0) + literal_text(b)->0);
    }
}

/// A wildcard pattern without `*` or `?` becomes a plain literal regex for
/// exactly its own text: every regex special character of the pattern
/// (`$` included) is escaped and nothing else is added, so the search finds
/// the pattern's text where it occurs literally (the search regex only adds
/// the case-insensitive flag, see `single_line_source`).
pub proof fn lemma_wildcard_without_wildcards_is_literal(p: Seq<char>)
    requires
        forall|i: int| 0 <= i < p.len() ==> #[trigger] p[i] != '*' && p[i] != '?',
    ensures
        literal_text(wildcard_regex(p)) == Some(p),
    decreases p.len(),
{
    if p.len() > 0 {
        let q = p.drop_last();
        let c = p.last();
        assert forall|i: int| 0 <= i < q.len() implies #[trigger] q[i] != '*' && q[i] != '?' by {
            assert(q[i] == p[i]);
        }
        lemma_wildcard_without_wildcards_is_literal(q);
        let piece = wildcard_piece(c);
        assert(c != '*' && c != '?');
        let e = Seq::<char>::empty();
        assert(literal_text(e) == Some(e));
        assert(seq![c] + e =~= seq![c]);
        if regex_special(c) {
            assert(piece == seq!['\\', c]);
            assert(piece.skip(2) =~= e);
            assert(piece[0] == '\\' && piece[1] == c && piece.len() == 2);
        } else {
            assert(piece == seq![c]);
            assert(piece.skip(1) =~= e);
            assert(piece[0] == c && piece.len() == 1);
        }
        assert(literal_text(piece) == Some(seq![c]));
        lemma_literal_concat(wildcard_regex(q), piece);
        assert(q + seq![c] =~= p);
    } else {
        assert(wildcard_regex(p) =~= Seq::<char>::empty());
        assert(p =~= Seq::<char>::empty());
    }
}

/// The wildcard pattern that a regex written in wildcard style stands for:
/// `.*` is `*` (any characters), a `.` on its own is `?` (one character), a
/// backslash before a special character is that character, and any other
/// non-special character is itself; `None` for any other regex operator.
pub open spec fn wildcard_text(r: Seq<char>) -> Option<Seq<char>>
    decreases r.len(),
{
    if r.len() == 0 {
        Some(Seq::empty())
    } else if r[0] == '.' {
        if r.len() >= 2 && r[1] == '*' {
            match wildcard_text(r.skip(2)) {
                Some(t) => Some(seq!['*'] + t),
                None => None,
            }
        } else {
            match wildcard_text(r.skip(1)) {
                Some(t) => Some(seq!['?'] + t),
                None => None,
            }
        }
    } else if r[0] == '\\' {
        if r.len() >= 2 && regex_special(r[1]) {
            match wildcard_text(r.skip(2)) {
                Some(t) => Some(seq![r[1]] + t),
                None => None,
            }
        } else {
            None
        }
    } else if regex_special(r[0]) {
        None
    } else {
        match wildcard_text(r.skip(1)) {
            Some(t) => Some(seq![r[0]] + t),
            None => None,
        }
    }
}

/// Wildcard-style regexes put together stand for their patterns put
/// together (unless the second starts with a `*` that would join a `.` of
/// the first).
proof fn lemma_wildcard_text_concat(a: Seq<char>, b: Seq<char>)
    requires
        wildcard_text(a) is Some,
        wildcard_text(b) is Some,
        b.len() > 0 ==> b[0] != '*',
    ensures
        wildcard_text(a + b) == Some(wildcard_text(a)->0 + wildcard_text(b)->0),
    decreases a.len(),
{
    if a.len() == 0 {
        assert(a + b =~= b);
        assert(wildcard_text(a)->0 + wildcard_text(b)->0 =~= wildcard_text(b)->0);
    } else {
        let k: int = if (a[0] == '.' && a.len() >= 2 && a[1] == '*') || a[0] == '\\' { 2 } else { 1 };
        assert((a + b)[0] == a[0]);
        if a.len() >= 2 {
            assert((a + b)[1] == a[1]);
        } else if b.len() > 0 {
            assert((a + b)[1] == b[0]);
        }
        assert((a + b).skip(k) =~= a.skip(k) + b);
        lemma_wildcard_text_concat(a.skip(k), b);
        let h = wildcard_text(a)->0.take(1);
        assert(wildcard_text(a)->0 =~= h + wildcard_text(a.skip(k))->0);
        assert(h + (wildcard_text(a.skip(k))->0 + wildcard_text(b)->0)
            =~= (h + wildcard_text(a.skip(k))->0) + wildcard_text(b)->0);
    }
}

/// Any wildcard pattern is recovered from its regex: `*` became `.*`, `?`
/// became `.`, every regex special character was escaped, and nothing else
/// was added or changed.
pub proof fn lemma_wildcard_regex_round_trip(p: Seq<char>)
    ensures
        wildcard_text(wildcard_regex(p)) == Some(p),
    decreases p.len(),
{
    if p.len() > 0 {
        let q = p.drop_last();
        let c = p.last();
        lemma_wildcard_regex_round_trip(q);
        let piece = wildcard_piece(c);
        let e = Seq::<char>::empty();
        assert(wildcard_text(e) == Some(e));
        assert(seq![c] + e =~= seq![c]);
        assert(seq!['*'] + e =~= seq!['*']);
        assert(seq!['?'] + e =~= seq!['?']);
        if c == '*' {
            assert(piece.skip(2) =~= e);
        } else if c == '?' {
            assert(piece.skip(1) =~= e);
        } else if regex_special(c) {
            assert(piece == seq!['\\', c]);
            assert(piece.skip(2) =~= e);
        } else {
            assert(piece == seq![c]);
            assert(piece.skip(1) =~= e);
        }
        assert(wildcard_text(piece) == Some(seq![c]));
        lemma_wildcard_text_concat(wildcard_regex(q), piece);
        assert(q + seq![c] =~= p);
    } else {
        assert(wildcard_regex(p) =~= Seq::<char>::empty());
        assert(p =~= Seq::<char>::empty());
    }
}

} // verus!

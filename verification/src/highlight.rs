//! Syntax highlighting of one line: regex matches of the syntax's patterns
//! and whole-word keywords, each coloured by its group, in order of start.
use vstd::prelude::*;
use crate::find::{regex_match_spans, SearchRegex};
use crate::text::{char_is_alphanumeric, is_alphanumeric};

verus! {

/// Colours and style of a highlighted span.
#[derive(Debug, Clone, Copy, PartialEq, Eq, Structural)]
pub struct ColorSpec {
    pub fg: Option<u8>,
    pub bg: Option<u8>,
    pub bold: bool,
    pub italic: bool,
}

/// A regex pattern whose matches belong to a group.
pub struct SyntaxMatch {
    pub group: String,
    pub pattern: SearchRegex,
}

/// How a kind of file is highlighted: keyword lists and patterns by group,
/// and each group's colours (the first entry of a group counts).
pub struct SyntaxDefinition {
    pub keywords: Vec<(String, Vec<String>)>,
    pub matches: Vec<SyntaxMatch>,
    pub colors: Vec<(String, ColorSpec)>,
}

/// A coloured byte range of the line.
#[derive(Debug, Clone, Copy, PartialEq, Eq, Structural)]
pub struct StyledSpan {
    pub start: usize,
    pub end: usize,
    pub color_spec: ColorSpec,
}

/// The colours of `group`: the first entry for it.
pub open spec fn color_of(colors: Seq<(String, ColorSpec)>, group: Seq<char>) -> Option<ColorSpec>
    decreases colors.len(),
{
    if colors.len() == 0 {
        None
    } else if colors[0].0@ == group {
        Some(colors[0].1)
    } else {
        color_of(colors.drop_first(), group)
    }
}

/// Spans for the non-empty ranges of `spans`, coloured `c`.
pub open spec fn match_spans_of(spans: Seq<(usize, usize)>, c: ColorSpec) -> Seq<StyledSpan>
    decreases spans.len(),
{
    if spans.len() == 0 {
        Seq::empty()
    } else {
        let rest = match_spans_of(spans.drop_last(), c);
        let (a, b) = spans.last();
        if a == b { rest } else { rest.push(StyledSpan { start: a, end: b, color_spec: c }) }
    }
}

/// Spans of the first `i` patterns, pattern by pattern, each in match
/// order; a pattern whose group has no colours gives none.
pub open spec fn regex_spans(def: SyntaxDefinition, line: Seq<char>, i: int) -> Seq<StyledSpan>
    decreases i,
{
    if i <= 0 {
        Seq::empty()
    } else {
        let m = def.matches@[i - 1];
        let before = regex_spans(def, line, i - 1);
        match color_of(def.colors@, m.group@) {
            Some(c) => before + match_spans_of(regex_match_spans(m.pattern.source(), line), c),
            None => before,
        }
    }
}

/// Letters, digits and `_` make up words.
pub open spec fn is_word_char(c: char) -> bool {
    is_alphanumeric(c) || c == '_'
}

/// The character at character index `k` of `line`, or a space past it.
pub open spec fn char_at(line: Seq<char>, k: int) -> char {
    if 0 <= k < line.len() { line[k] } else { ' ' }
}

/// Whether `kw` occurs at byte `p` of `lb`.
pub open spec fn occurs_at(lb: Seq<u8>, kw: Seq<u8>, p: int) -> bool {
    0 <= p && p + kw.len() <= lb.len() && lb.subrange(p, p + kw.len()) == kw
}

/// Whether the keyword at byte `p` (`n` bytes) stands as a whole word: the
/// characters before and after it (looked up by those byte positions as
/// character indices) are not word characters.
pub open spec fn whole_word(line: Seq<char>, lb: Seq<u8>, p: int, n: int) -> bool {
    (p == 0 || !is_word_char(char_at(line, p - 1))) && (p + n >= lb.len() || !is_word_char(char_at(line, p + n)))
}

/// Whole-word occurrences of `kw` starting before byte `q`, in order,
/// coloured `c`.
pub open spec fn keyword_hits(line: Seq<char>, lb: Seq<u8>, kw: Seq<u8>, c: ColorSpec, q: int) -> Seq<StyledSpan>
    decreases q,
{
    if q <= 0 {
        Seq::empty()
    } else {
        let rest = keyword_hits(line, lb, kw, c, q - 1);
        let p = q - 1;
        if occurs_at(lb, kw, p) && whole_word(line, lb, p, kw.len() as int) {
            rest.push(StyledSpan { start: p as usize, end: (p + kw.len()) as usize, color_spec: c })
        } else {
            rest
        }
    }
}

/// Keyword hits of the first `j` keywords of a list, keyword by keyword.
pub open spec fn list_hits(line: Seq<char>, kws: Seq<String>, c: ColorSpec, j: int) -> Seq<StyledSpan>
    decreases j,
{
    if j <= 0 {
        Seq::empty()
    } else {
        let lb = vstd::utf8::encode_utf8(line);
        list_hits(line, kws, c, j - 1) + keyword_hits(line, lb, vstd::utf8::encode_utf8(kws[j - 1]@), c, lb.len() as int)
    }
}

/// Keyword candidates of the first `g` groups, group by group; a group
/// without colours gives none.
pub open spec fn keyword_spans(def: SyntaxDefinition, line: Seq<char>, g: int) -> Seq<StyledSpan>
    decreases g,
{
    if g <= 0 {
        Seq::empty()
    } else {
        let (group, kws) = def.keywords@[g - 1];
        let before = keyword_spans(def, line, g - 1);
        match color_of(def.colors@, group@) {
            Some(c) => before + list_hits(line, kws@, c, kws@.len() as int),
            None => before,
        }
    }
}

/// Whether `x` overlaps one of the spans of `a`.
pub open spec fn overlaps_any(a: Seq<StyledSpan>, x: StyledSpan) -> bool
    decreases a.len(),
{
    if a.len() == 0 {
        false
    } else {
        !(x.end <= a.last().start || x.start >= a.last().end) || overlaps_any(a.drop_last(), x)
    }
}

/// `base` with the candidates added one by one, each unless it overlaps a
/// span already there.
pub open spec fn accepted(base: Seq<StyledSpan>, cands: Seq<StyledSpan>) -> Seq<StyledSpan>
    decreases cands.len(),
{
    if cands.len() == 0 {
        base
    } else {
        let a = accepted(base, cands.drop_last());
        if overlaps_any(a, cands.last()) { a } else { a.push(cands.last()) }
    }
}

/// First index of `r` (from `k` on) whose span starts after `st`.
pub open spec fn first_after(r: Seq<StyledSpan>, st: usize, k: int) -> int
    decreases r.len() - k,
{
    if k >= r.len() || k < 0 {
        r.len() as int
    } else if r[k].start > st {
        k
    } else {
        first_after(r, st, k + 1)
    }
}

/// The spans ordered by start, spans with equal starts kept in their order.
pub open spec fn sorted_by_start(v: Seq<StyledSpan>) -> Seq<StyledSpan>
    decreases v.len(),
{
    if v.len() == 0 {
        Seq::empty()
    } else {
        let r = sorted_by_start(v.drop_last());
        r.insert(first_after(r, v.last().start, 0), v.last())
    }
}

/// The highlighted spans of `line`: the regex spans, then the keyword
/// candidates that overlap none of the spans before them, ordered by start.
pub open spec fn highlighted(def: SyntaxDefinition, line: Seq<char>) -> Seq<StyledSpan> {
    let re = regex_spans(def, line, def.matches@.len() as int);
    let kw = keyword_spans(def, line, def.keywords@.len() as int);
    sorted_by_start(accepted(re, kw))
}

/// Keywords the highlighter can search for in `line`: non-empty, and a
/// keyword that starts with a non-ASCII character does not occur (the
/// search would then resume inside that character).
pub open spec fn keywords_ok(def: SyntaxDefinition, line: Seq<char>) -> bool {
    forall|g: int, j: int| 0 <= g < def.keywords@.len() && 0 <= j < def.keywords@[g].1@.len() ==> {
        let kw = #[trigger] def.keywords@[g].1@[j]@;
        &&& kw.len() > 0
        &&& (kw[0] as u32) >= 0x80 ==> forall|p: int| !occurs_at(vstd::utf8::encode_utf8(line), vstd::utf8::encode_utf8(kw), p)
    }
}

/// The colours of `group` (see `color_of`).
fn lookup_color(colors: &Vec<(String, ColorSpec)>, group: &String) -> (r: Option<ColorSpec>)
    ensures
        r == color_of(colors@, group@),
{
    let mut i: usize = 0;
    assert(colors@.skip(0) =~= colors@);
    while i < colors.len()
        invariant
            i <= colors@.len(),
            color_of(colors@, group@) == color_of(colors@.skip(i as int), group@),
        decreases colors@.len() - i,
    {
        assert(colors@.skip(i as int).drop_first() =~= colors@.skip(i + 1));
        if colors[i].0 == *group {
            return Some(colors[i].1);
        }
        i = i + 1;
    }
    assert(colors@.skip(i as int).len() == 0);
    None
}

/// Whether the bytes `kw` occur at byte `p` of `lb`.
fn bytes_at(lb: &[u8], kw: &[u8], p: usize) -> (r: bool)
    ensures
        r == occurs_at(lb@, kw@, p as int),
{
    if p > lb.len() || kw.len() > lb.len() - p {
        return false;
    }
    let n = lb.len();
    let mut k: usize = 0;
    while k < kw.len()
        invariant
            n == lb@.len(),
            p + kw@.len() <= lb@.len(),
            k <= kw@.len(),
            forall|t: int| 0 <= t < k ==> lb@[p + t] == kw@[t],
        decreases kw@.len() - k,
    {
        assert(p + k < lb@.len());
        if lb[p + k] != kw[k] {
            assert(lb@.subrange(p as int, p + kw@.len())[k as int] != kw@[k as int]);
            return false;
        }
        k = k + 1;
    }
    assert(lb@.subrange(p as int, p + kw@.len()) =~= kw@);
    true
}

/// Whether the character at index `k` of `line` (a space past it) is a word
/// character.
fn word_char_at(line: &str, k: usize) -> (r: bool)
    ensures
        r == is_word_char(char_at(line@, k as int)),
{
    let c = if k < line.unicode_len() { line.get_char(k) } else { ' ' };
    char_is_alphanumeric(c) || c == '_'
}

/// Push the whole-word occurrences of `kw` (see `keyword_hits`).
fn push_keyword_hits(out: &mut Vec<StyledSpan>, line: &str, kw: &str, c: ColorSpec)
    requires
        kw@.len() > 0,
        (kw@[0] as u32) >= 0x80 ==> forall|p: int| !occurs_at(vstd::utf8::encode_utf8(line@), vstd::utf8::encode_utf8(kw@), p),
    ensures
        final(out)@ == old(out)@ + keyword_hits(line@, vstd::utf8::encode_utf8(line@), vstd::utf8::encode_utf8(kw@), c,
            vstd::utf8::encode_utf8(line@).len() as int),
{
    let lb = line.as_bytes();
    let kb = kw.as_bytes();
    let ghost base = out@;
    let mut q: usize = 0;
    while q < lb.len()
        invariant
            lb@ == vstd::utf8::encode_utf8(line@),
            kb@ == vstd::utf8::encode_utf8(kw@),
            q <= lb@.len(),
            out@ == base + keyword_hits(line@, lb@, kb@, c, q as int),
        decreases lb@.len() + 1 - q,
    {
        if bytes_at(lb, kb, q) {
            let n = kb.len();
            let before_ok = q == 0 || !word_char_at(line, q - 1);
            let after_ok = q + n >= lb.len() || !word_char_at(line, q + n);
            if before_ok && after_ok {
                out.push(StyledSpan { start: q, end: q + n, color_spec: c });
            }
        }
        q = q + 1;
    }
}

/// The regex spans of all patterns (see `regex_spans`).
fn collect_regex_spans(def: &SyntaxDefinition, line: &str) -> (r: Vec<StyledSpan>)
    ensures
        r@ == regex_spans(*def, line@, def.matches@.len() as int),
{
    let mut out: Vec<StyledSpan> = Vec::new();
    let mut i: usize = 0;
    while i < def.matches.len()
        invariant
            i <= def.matches@.len(),
            out@ == regex_spans(*def, line@, i as int),
        decreases def.matches@.len() - i,
    {
        let m = &def.matches[i];
        match lookup_color(&def.colors, &m.group) {
            Some(c) => {
                let spans = m.pattern.match_spans(line);
                let ghost base = out@;
                let mut j: usize = 0;
                while j < spans.len()
                    invariant
                        j <= spans@.len(),
                        out@ == base + match_spans_of(spans@.take(j as int), c),
                    decreases spans@.len() - j,
                {
                    let (a, b) = spans[j];
                    assert(spans@.take(j + 1).drop_last() =~= spans@.take(j as int));
                    if a != b {
                        out.push(StyledSpan { start: a, end: b, color_spec: c });
                    }
                    j = j + 1;
                }
                assert(spans@.take(spans@.len() as int) =~= spans@);
            },
            None => {},
        }
        i = i + 1;
    }
    out
}

/// The keyword candidates of all groups (see `keyword_spans`).
fn collect_keyword_spans(def: &SyntaxDefinition, line: &str) -> (r: Vec<StyledSpan>)
    requires
        keywords_ok(*def, line@),
    ensures
        r@ == keyword_spans(*def, line@, def.keywords@.len() as int),
{
    let mut out: Vec<StyledSpan> = Vec::new();
    let mut g: usize = 0;
    while g < def.keywords.len()
        invariant
            g <= def.keywords@.len(),
            keywords_ok(*def, line@),
            out@ == keyword_spans(*def, line@, g as int),
        decreases def.keywords@.len() - g,
    {
        let entry = &def.keywords[g];
        match lookup_color(&def.colors, &entry.0) {
            Some(c) => {
                let ghost base = out@;
                let mut j: usize = 0;
                while j < entry.1.len()
                    invariant
                        g < def.keywords@.len(),
                        *entry == def.keywords@[g as int],
                        keywords_ok(*def, line@),
                        j <= entry.1@.len(),
                        out@ == base + list_hits(line@, entry.1@, c, j as int),
                    decreases entry.1@.len() - j,
                {
                    let kw = &entry.1[j];
                    assert(kw@ == def.keywords@[g as int].1@[j as int]@);
                    push_keyword_hits(&mut out, line, kw.as_str(), c);
                    j = j + 1;
                }
            },
            None => {},
        }
        g = g + 1;
    }
    out
}

/// Whether `x` overlaps a span of `a` (see `overlaps_any`).
fn overlaps_existing(a: &Vec<StyledSpan>, x: StyledSpan) -> (r: bool)
    ensures
        r == overlaps_any(a@, x),
{
    let mut i: usize = 0;
    let mut found = false;
    while i < a.len()
        invariant
            i <= a@.len(),
            found == overlaps_any(a@.take(i as int), x),
        decreases a@.len() - i,
    {
        assert(a@.take(i + 1).drop_last() =~= a@.take(i as int));
        let s = a[i];
        if !(x.end <= s.start || x.start >= s.end) {
            found = true;
        }
        i = i + 1;
    }
    assert(a@.take(a@.len() as int) =~= a@);
    found
}

/// Add the candidates that overlap nothing before them (see `accepted`).
fn accept_candidates(spans: &mut Vec<StyledSpan>, cands: &Vec<StyledSpan>)
    ensures
        final(spans)@ == accepted(old(spans)@, cands@),
{
    let ghost base = spans@;
    let mut i: usize = 0;
    while i < cands.len()
        invariant
            i <= cands@.len(),
            spans@ == accepted(base, cands@.take(i as int)),
        decreases cands@.len() - i,
    {
        assert(cands@.take(i + 1).drop_last() =~= cands@.take(i as int));
        let x = cands[i];
        if !overlaps_existing(spans, x) {
            spans.push(x);
        }
        i = i + 1;
    }
    assert(cands@.take(cands@.len() as int) =~= cands@);
}

/// The first index whose span starts after `st` (see `first_after`).
fn find_first_after(r: &Vec<StyledSpan>, st: usize) -> (k: usize)
    ensures
        k == first_after(r@, st, 0),
        k <= r@.len(),
{
    let mut k: usize = 0;
    while k < r.len() && r[k].start <= st
        invariant
            k <= r@.len(),
            first_after(r@, st, 0) == first_after(r@, st, k as int),
        decreases r@.len() - k,
    {
        k = k + 1;
    }
    k
}

/// Order the spans by start, keeping equal starts in order (see
/// `sorted_by_start`).
fn sort_by_start(v: &Vec<StyledSpan>) -> (r: Vec<StyledSpan>)
    ensures
        r@ == sorted_by_start(v@),
{
    let mut r: Vec<StyledSpan> = Vec::new();
    let mut i: usize = 0;
    while i < v.len()
        invariant
            i <= v@.len(),
            r@ == sorted_by_start(v@.take(i as int)),
        decreases v@.len() - i,
    {
        assert(v@.take(i + 1).drop_last() =~= v@.take(i as int));
        let x = v[i];
        let k = find_first_after(&r, x.start);
        r.insert(k, x);
        i = i + 1;
    }
    assert(v@.take(v@.len() as int) =~= v@);
    r
}

/// A sequence of spans ordered by start.
pub open spec fn starts_ordered(r: Seq<StyledSpan>) -> bool {
    forall|a: int, b: int| 0 <= a < b < r.len() ==> r[a].start <= r[b].start
}

/// `first_after` finds the first later start, and everything before it
/// starts no later.
proof fn lemma_first_after(r: Seq<StyledSpan>, st: usize, k: int)
    requires
        0 <= k <= r.len(),
    ensures
        k <= first_after(r, st, k) <= r.len(),
        forall|t: int| k <= t < first_after(r, st, k) ==> r[t].start <= st,
        first_after(r, st, k) < r.len() ==> r[first_after(r, st, k)].start > st,
    decreases r.len() - k,
{
    if k < r.len() && r[k].start <= st {
        lemma_first_after(r, st, k + 1);
    }
}

/// The ordering keeps spans ordered by start.
pub proof fn lemma_sorted_by_start_ordered(v: Seq<StyledSpan>)
    ensures
        starts_ordered(sorted_by_start(v)),
        sorted_by_start(v).len() == v.len(),
    decreases v.len(),
{
    if v.len() > 0 {
        let r = sorted_by_start(v.drop_last());
        lemma_sorted_by_start_ordered(v.drop_last());
        let x = v.last();
        let k = first_after(r, x.start, 0);
        lemma_first_after(r, x.start, 0);
        let n = r.insert(k, x);
        assert forall|a: int, b: int| 0 <= a < b < n.len() implies n[a].start <= n[b].start by {
            if b < k {
            } else if a < k && b == k {
            } else if a < k {
                assert(n[b] == r[b - 1]);
                if a < b - 1 {
                } else {
                }
            } else if a == k {
                assert(n[b] == r[b - 1]);
                assert(r[k].start > x.start);
                if b - 1 > k {
                    assert(r[k].start <= r[b - 1].start);
                }
            } else {
                assert(n[a] == r[a - 1] && n[b] == r[b - 1]);
            }
        }
    }
}

/// Highlight `line` by `def` (see `highlighted`): regex matches of the
/// patterns (empty ones skipped) and whole-word keywords that overlap no
/// span before them, each coloured by its group, ordered by start.
pub fn highlight_line(line: &str, def: &SyntaxDefinition) -> (spans: Vec<StyledSpan>)
    requires
        keywords_ok(*def, line@),
    ensures
        spans@ == highlighted(*def, line@),
        starts_ordered(spans@),
{
    let mut spans = collect_regex_spans(def, line);
    let cands = collect_keyword_spans(def, line);
    accept_candidates(&mut spans, &cands);
    let r = sort_by_start(&spans);
    proof {
        lemma_sorted_by_start_ordered(accepted(regex_spans(*def, line@, def.matches@.len() as int), cands@));
    }
    r
}

/// The extension of `path` as `std::path::Path::extension` gives it.
pub uninterp spec fn path_extension(path: Seq<char>) -> Option<Seq<char>>;

/// Calls `Path::extension` on `path` (the extension, when it is valid
/// Unicode).
#[verifier::external_body]
fn extension_of(path: &str) -> (r: Option<String>)
    ensures
        match r {
            Some(e) => path_extension(path@) == Some(e@),
            None => path_extension(path@) is None,
        },
{
    std::path::Path::new(path).extension().and_then(|e| e.to_str()).map(|e| e.to_string())
}

/// The extension of a file name, which picks its syntax definition.
pub fn get_file_extension(filename: &str) -> (r: Option<String>)
    ensures
        match r {
            Some(e) => path_extension(filename@) == Some(e@),
            None => path_extension(filename@) is None,
        },
{
    extension_of(filename)
}

} // verus!

//! Character-level helpers shared by the layout and editing code: display
//! widths of characters (with tab stops), Unicode character classes, and
//! conversions between strings and character vectors.
use vstd::prelude::*;

verus! {

// ---------------------------------------------------------------------------
// Unicode properties provided by std and unicode-width
// ---------------------------------------------------------------------------

/// Display width that the `unicode-width` crate assigns to a character
/// (`None` for control characters).
pub uninterp spec fn unicode_width_of(c: char) -> Option<usize>;

/// Calls `unicode_width::UnicodeWidthChar::width`.
/// Claims: the result is `unicode_width_of(c)`; printable ASCII (U+0020..U+007E)
/// has width 1; the C0 and C1 control ranges (below U+0020, U+007F..U+009F)
/// have no width; every width that is returned is at most 3 (the crate's lookup
/// table stores two bits per character and its overflow case yields at most 3).
#[verifier::external_body]
pub(crate) fn unicode_char_width(c: char) -> (r: Option<usize>)
    ensures
        r == unicode_width_of(c),
        0x20 <= (c as u32) && (c as u32) < 0x7f ==> r == Some(1usize),
        (c as u32) < 0x20 || (0x7f <= (c as u32) && (c as u32) < 0xa0) ==> r is None,
        r matches Some(w) ==> w <= 3,
{
    unicode_width::UnicodeWidthChar::width(c)
}

/// Whether std's `char::is_whitespace` holds (the Unicode White_Space property).
pub uninterp spec fn is_white_space(c: char) -> bool;

/// Calls `char::is_whitespace`.  Claims: the result is `is_white_space(c)`,
/// the ASCII space, tab and line feed are white space, and ASCII letters and
/// digits are not (all stated in std's documentation of the property).
#[verifier::external_body]
pub fn char_is_whitespace(c: char) -> (r: bool)
    ensures
        r == is_white_space(c),
        c == ' ' || c == '\t' || c == '\n' ==> r,
        is_ascii_alnum(c) ==> !r,
{
    c.is_whitespace()
}

/// Whether std's `char::is_alphanumeric` holds (Alphabetic or Numeric).
pub uninterp spec fn is_alphanumeric(c: char) -> bool;

/// ASCII letters and digits.
pub open spec fn is_ascii_alnum(c: char) -> bool {
    ('a' <= c && c <= 'z') || ('A' <= c && c <= 'Z') || ('0' <= c && c <= '9')
}

/// Calls `char::is_alphanumeric`.  Claims: the result is `is_alphanumeric(c)`,
/// ASCII letters and digits are alphanumeric, and the ASCII space, tab,
/// underscore and line feed are not.
#[verifier::external_body]
pub fn char_is_alphanumeric(c: char) -> (r: bool)
    ensures
        r == is_alphanumeric(c),
        is_ascii_alnum(c) ==> r,
        c == ' ' || c == '\t' || c == '_' || c == '\n' ==> !r,
{
    c.is_alphanumeric()
}

/// First character of std's lower-case mapping of `c`.
pub uninterp spec fn lowercase_of(c: char) -> char;

/// Calls `char::to_lowercase` and keeps the first character of the mapping
/// (`c` itself if the mapping were empty).  Claims: the result is
/// `lowercase_of(c)`; ASCII capitals map to the letter 32 code points
/// higher; other ASCII characters map to themselves.
#[verifier::external_body]
pub fn lowercase_first(c: char) -> (r: char)
    ensures
        r == lowercase_of(c),
        'A' <= c && c <= 'Z' ==> r as u32 == c as u32 + 32,
        (c as u32) < 0x80 && !('A' <= c && c <= 'Z') ==> r == c,
{
    c.to_lowercase().next().unwrap_or(c)
}

/// Characters that belong to a word for word-wise movement and deletion.
pub open spec fn word_char(c: char) -> bool {
    is_alphanumeric(c) || c == '_'
}

/// Word characters: alphanumerics and the underscore.
pub fn is_word_char(c: char) -> (r: bool)
    ensures
        r == word_char(c),
{
    char_is_alphanumeric(c) || c == '_'
}

// ---------------------------------------------------------------------------
// Display widths
// ---------------------------------------------------------------------------

/// Columns taken by `c` when it starts at column `col`: a tab advances to the
/// next multiple of `tab`, other characters take their Unicode width (1 for
/// control characters).
pub open spec fn char_cols(c: char, col: int, tab: int) -> int {
    if c == '\t' {
        tab - col % tab
    } else {
        match unicode_width_of(c) {
            Some(w) => w as int,
            None => 1,
        }
    }
}

/// Display width of the `k` characters `s[lo..lo+k]` laid out on their own,
/// starting at column 0.
pub open spec fn seg_width(s: Seq<char>, lo: int, k: nat, tab: int) -> int
    decreases k,
{
    if k == 0 {
        0
    } else {
        let w = seg_width(s, lo, (k - 1) as nat, tab);
        w + char_cols(s[lo + k - 1], w, tab)
    }
}

/// Display width of the first `n` characters of `s`.
pub open spec fn prefix_width(s: Seq<char>, n: nat, tab: int) -> int {
    seg_width(s, 0, n, tab)
}

/// Display width of the whole of `s`.
pub open spec fn seq_width(s: Seq<char>, tab: int) -> int {
    prefix_width(s, s.len(), tab)
}

/// Display width of `s[lo..hi]` laid out on its own, starting at column 0.
pub open spec fn range_width(s: Seq<char>, lo: int, hi: int, tab: int) -> int {
    seg_width(s, lo, (hi - lo) as nat, tab)
}

/// A tab width is usable for `s` when it is positive or `s` holds no tab.
pub open spec fn tab_ok(s: Seq<char>, tab: usize) -> bool {
    tab > 0 || !s.contains('\t')
}

/// `s` can be laid out with `tab` without panicking and without any width
/// exceeding `usize` (each character takes at most `tab + 3` columns).
pub open spec fn text_fits(s: Seq<char>, tab: usize) -> bool {
    tab_ok(s, tab) && s.len() * (tab + 3) <= usize::MAX
}

/// Every line of `lines` satisfies `text_fits`.
pub open spec fn lines_fit(lines: Seq<String>, tab: usize) -> bool {
    forall|i: int| 0 <= i < lines.len() ==> text_fits(#[trigger] lines[i]@, tab)
}

/// Bounds on the columns one character takes.
pub proof fn lemma_char_cols_bounds(c: char, col: int, tab: int)
    requires
        tab > 0 || c != '\t',
        tab >= 0,
        col >= 0,
        c != '\t' ==> (unicode_width_of(c) matches Some(w) ==> w <= 3),
    ensures
        0 <= char_cols(c, col, tab) <= tab + 3,
        c == '\t' ==> char_cols(c, col, tab) >= 1,
{
    if c == '\t' {
        assert(0 <= col % tab < tab) by (nonlinear_arith)
            requires
                tab > 0,
        ;
    }
}

/// Width of one character at the current column (tabs align to the next
/// tab stop).
pub fn char_visual_width(ch: char, current_col: usize, tab_width: usize) -> (r: usize)
    requires
        tab_width > 0 || ch != '\t',
    ensures
        r == char_cols(ch, current_col as int, tab_width as int),
        r <= tab_width + 3,
        ch != '\t' ==> (unicode_width_of(ch) matches Some(w) ==> w <= 3),
{
    if ch == '\t' {
        proof { lemma_char_cols_bounds(ch, current_col as int, tab_width as int); }
        tab_width - (current_col % tab_width)
    } else {
        match unicode_char_width(ch) {
            Some(w) => w,
            None => 1,
        }
    }
}

/// `n * k + k == (n + 1) * k` and `(n + 1) * k <= len * k` for `n < len`.
pub proof fn lemma_step_bound(n: int, len: int, k: int)
    requires
        0 <= n < len,
        k >= 0,
    ensures
        n * k + k == (n + 1) * k,
        (n + 1) * k <= len * k,
{
    assert(n * k + k == (n + 1) * k) by (nonlinear_arith);
    assert((n + 1) * k <= len * k) by (nonlinear_arith)
        requires
            n + 1 <= len,
            k >= 0,
    ;
}

/// Display width of the characters `chars[lo..hi]` laid out from column 0.
pub fn range_cols(chars: &Vec<char>, lo: usize, hi: usize, tab_width: usize) -> (r: usize)
    requires
        lo <= hi <= chars@.len(),
        text_fits(chars@, tab_width),
    ensures
        r == range_width(chars@, lo as int, hi as int, tab_width as int),
        r <= (hi - lo) * (tab_width + 3),
{
    let mut w: usize = 0;
    let mut j: usize = lo;
    while j < hi
        invariant
            lo <= j <= hi <= chars@.len(),
            text_fits(chars@, tab_width),
            w == seg_width(chars@, lo as int, (j - lo) as nat, tab_width as int),
            w <= (j - lo) * (tab_width + 3),
        decreases hi - j,
    {
        let ch = chars[j];
        if ch == '\t' {
            assert(chars@.contains('\t')) by { assert(chars@[j as int] == '\t'); }
        }
        let cw = char_visual_width(ch, w, tab_width);
        proof {
            lemma_step_bound((j - lo) as int, chars@.len() as int, tab_width + 3);
            assert((j - lo) < chars@.len());
            assert(chars@.len() * (tab_width + 3) <= usize::MAX);
        }
        w = w + cw;
        j = j + 1;
    }
    w
}

/// Number of UTF-8 bytes of the text `s` (as `str::len` reports it).
pub open spec fn byte_len(s: Seq<char>) -> usize {
    vstd::utf8::encode_utf8(s).len() as usize
}

/// Byte length of a string (what `str::len` reports).
pub fn byte_length(s: &str) -> (r: usize)
    ensures
        r == byte_len(s@),
{
    s.len()
}

/// Calls `String::push`: appends `c`.
#[verifier::external_body]
pub fn string_push(s: &mut String, c: char)
    ensures
        final(s)@ == old(s)@.push(c),
{
    s.push(c);
}

/// A new string holding `s[from..to]` (character indices).
pub fn substring(s: &str, from: usize, to: usize) -> (r: String)
    requires
        from <= to <= s@.len(),
    ensures
        r@ == s@.subrange(from as int, to as int),
{
    String::from_str(s.substring_char(from, to))
}

/// `s` with `c` inserted before character `idx`.
pub fn insert_char_at(s: &str, idx: usize, c: char) -> (r: String)
    requires
        idx <= s@.len(),
    ensures
        r@ == s@.insert(idx as int, c),
{
    let n = s.unicode_len();
    let mut r = substring(s, 0, idx);
    string_push(&mut r, c);
    r.append(s.substring_char(idx, n));
    assert(r@ =~= s@.insert(idx as int, c));
    r
}

/// `s` without character `idx`.
pub fn remove_char_at(s: &str, idx: usize) -> (r: String)
    requires
        idx < s@.len(),
    ensures
        r@ == s@.remove(idx as int),
{
    let n = s.unicode_len();
    let mut r = substring(s, 0, idx);
    r.append(s.substring_char(idx + 1, n));
    assert(r@ =~= s@.remove(idx as int));
    r
}

/// The concatenation of two strings.
pub fn concat_str(a: &str, b: &str) -> (r: String)
    ensures
        r@ == a@ + b@,
{
    let mut r = String::from_str(a);
    r.append(b);
    r
}

/// A copy of a string.
pub fn copy_string(s: &String) -> (r: String)
    ensures
        r@ == s@,
{
    s.clone()
}

/// Characters never take fewer UTF-8 bytes than there are characters.
pub proof fn lemma_chars_le_bytes(s: Seq<char>)
    ensures
        s.len() <= vstd::utf8::encode_utf8(s).len(),
    decreases s.len(),
{
    if s.len() > 0 {
        lemma_chars_le_bytes(s.drop_first());
        let c = s[0] as u32;
        assert(vstd::utf8::encode_scalar(c).len() >= 1);
    }
}

/// A character takes at most four bytes in UTF-8.
pub proof fn lemma_bytes_le_four_per_char(s: Seq<char>)
    ensures
        vstd::utf8::encode_utf8(s).len() <= 4 * s.len(),
    decreases s.len(),
{
    if s.len() > 0 {
        lemma_bytes_le_four_per_char(s.drop_first());
        let c = s[0] as u32;
        assert(vstd::utf8::encode_scalar(c).len() <= 4);
    }
}

/// Whether `s` contains the character `c`.
pub fn contains_char(s: &str, c: char) -> (b: bool)
    ensures
        b == s@.contains(c),
{
    let chars = chars_of(s);
    let mut i: usize = 0;
    while i < chars.len()
        invariant
            i <= chars@.len(),
            chars@ == s@,
            forall|j: int| 0 <= j < i ==> chars@[j] != c,
        decreases chars@.len() - i,
    {
        if chars[i] == c {
            return true;
        }
        i = i + 1;
    }
    false
}

/// Executable check of `text_fits`.
pub fn text_fits_check(s: &str, tab: usize) -> (b: bool)
    ensures
        b == text_fits(s@, tab),
{
    if tab == 0 && contains_char(s, '\t') {
        return false;
    }
    let n = s.unicode_len();
    match tab.checked_add(3) {
        None => {
            assert(n >= 1 ==> n * (tab + 3) >= tab + 3) by (nonlinear_arith);
            assert(n == 0 ==> n * (tab + 3) == 0);
            assert(tab + 3 > usize::MAX);
            assert((n == 0) == (s@.len() * (tab + 3) <= usize::MAX));
            n == 0
        },
        Some(t3) => {
            let r = n.checked_mul(t3);
            assert(r is Some <==> n * t3 <= usize::MAX);
            assert(r.is_some() == (s@.len() * (tab + 3) <= usize::MAX));
            r.is_some()
        },
    }
}

/// Executable check of `lines_fit`.
pub fn lines_fit_check(lines: &[String], tab: usize) -> (b: bool)
    ensures
        b == lines_fit(lines@, tab),
{
    let mut i: usize = 0;
    while i < lines.len()
        invariant
            i <= lines@.len(),
            forall|j: int| 0 <= j < i ==> text_fits(#[trigger] lines@[j]@, tab),
        decreases lines@.len() - i,
    {
        if !text_fits_check(lines[i].as_str(), tab) {
            return false;
        }
        i = i + 1;
    }
    true
}

/// The UTF-8 encoding of a concatenation is the concatenation of encodings.
pub proof fn lemma_encode_concat(a: Seq<char>, b: Seq<char>)
    ensures
        vstd::utf8::encode_utf8(a + b) == vstd::utf8::encode_utf8(a) + vstd::utf8::encode_utf8(b),
    decreases a.len(),
{
    if a.len() == 0 {
        assert(a + b =~= b);
        assert(vstd::utf8::encode_utf8(a) =~= Seq::<u8>::empty());
        assert(Seq::<u8>::empty() + vstd::utf8::encode_utf8(b) =~= vstd::utf8::encode_utf8(b));
    } else {
        lemma_encode_concat(a.drop_first(), b);
        assert((a + b).drop_first() =~= a.drop_first() + b);
        assert((a + b)[0] == a[0]);
        let sa = vstd::utf8::encode_scalar(a[0] as u32);
        assert(sa + (vstd::utf8::encode_utf8(a.drop_first()) + vstd::utf8::encode_utf8(b))
            =~= (sa + vstd::utf8::encode_utf8(a.drop_first())) + vstd::utf8::encode_utf8(b));
    }
}

/// Number of UTF-8 bytes of one character.
pub fn char_byte_len(c: char) -> (n: usize)
    ensures
        n == vstd::utf8::encode_scalar(c as u32).len(),
        1 <= n <= 4,
{
    let v = c as u32;
    if v <= 0x7f {
        1
    } else if v <= 0x7ff {
        2
    } else if v <= 0xffff {
        3
    } else {
        4
    }
}

/// Collects the characters of a string into a vector.
pub fn chars_of(s: &str) -> (v: Vec<char>)
    ensures
        v@ == s@,
{
    let mut v: Vec<char> = Vec::new();
    for c in it: s.chars()
        invariant
            v@ == it.seq().take(it.index() as int),
    {
        v.push(c);
    }
    v
}

} // verus!

//! Selections as text: what a selection covers, copying it out, removing it
//! from the document, cutting and pasting.
use vstd::prelude::*;
use crate::editor_state::{FileViewerState, Position, pos_le, same_outside_editing};
use crate::editing::{copy_lines, copy_positions, doc, min_int, sat_sub};
use crate::text::{chars_of, concat_str, string_push, substring};
use crate::undo::{Edit, UndoHistory, undoable};

verus! {

// ---------------------------------------------------------------------------
// Selected text
// ---------------------------------------------------------------------------

/// The two ends of a selection in document order.
pub open spec fn ordered(a: Position, b: Position) -> (Position, Position) {
    if pos_le(a, b) { (a, b) } else { (b, a) }
}

/// Put the two ends of a selection in document order.
pub fn normalize_selection(a: Position, b: Position) -> (r: (Position, Position))
    ensures
        r == ordered(a, b),
{
    if a.0 < b.0 || (a.0 == b.0 && a.1 <= b.1) {
        (a, b)
    } else {
        (b, a)
    }
}

/// The pieces `f(lo), .., f(hi - 1)` one after the other.
pub open spec fn concat_pieces<A>(f: spec_fn(int) -> Seq<A>, lo: int, hi: int) -> Seq<A>
    decreases hi - lo,
{
    if hi <= lo {
        Seq::empty()
    } else {
        concat_pieces(f, lo, hi - 1) + f(hi - 1)
    }
}

/// Pieces that are all empty add nothing.
pub proof fn lemma_concat_empty_tail<A>(f: spec_fn(int) -> Seq<A>, lo: int, mid: int, hi: int)
    requires
        lo <= mid <= hi,
        forall|k: int| mid <= k < hi ==> #[trigger] f(k).len() == 0,
    ensures
        concat_pieces(f, lo, hi) == concat_pieces(f, lo, mid),
    decreases hi - mid,
{
    if hi > mid {
        lemma_concat_empty_tail(f, lo, mid, hi - 1);
        assert(f(hi - 1).len() == 0);
        assert(concat_pieces(f, lo, hi - 1) + f(hi - 1) =~= concat_pieces(f, lo, hi - 1));
    }
}

/// What a selection over several lines, from `(sl, sc)` to `(el, ec)`,
/// covers of line `i`: the first line from column `sc` on, the last line up
/// to column `ec` (clamped), the lines between whole; every line but the last
/// with its line break.  Lines past the document add nothing.
pub open spec fn multi_piece(d: Seq<Seq<char>>, i: int, sl: int, sc: int, el: int, ec: int) -> Seq<char> {
    if i < 0 || i >= d.len() {
        Seq::empty()
    } else if i == sl {
        d[i].skip(sc).push('\n')
    } else if i == el {
        d[i].take(min_int(ec, d[i].len() as int))
    } else {
        d[i].push('\n')
    }
}

/// What a block selection of columns `sc..ec` covers of line `i`: those
/// columns as far as the line reaches, then a line break unless `i` is the
/// last line `el`.  Lines past the document add nothing.
pub open spec fn block_piece(d: Seq<Seq<char>>, i: int, sc: int, ec: int, el: int) -> Seq<char> {
    if i < 0 || i >= d.len() {
        Seq::empty()
    } else {
        let a = min_int(sc, d[i].len() as int);
        let b = min_int(ec, d[i].len() as int);
        (if a < b { d[i].subrange(a, b) } else { Seq::empty() }) + (if i < el { seq!['\n'] } else { Seq::empty() })
    }
}

/// The text a line-wise selection from `start` to `end` (in document order)
/// covers.
pub open spec fn selected_text(d: Seq<Seq<char>>, start: Position, end: Position) -> Seq<char> {
    let (sl, sc) = start;
    let (el, ec) = end;
    if sl == el {
        if sl < d.len() {
            d[sl as int].subrange(sc as int, min_int(ec as int, d[sl as int].len() as int))
        } else {
            Seq::empty()
        }
    } else {
        concat_pieces(|i: int| multi_piece(d, i, sl as int, sc as int, el as int, ec as int), sl as int, el + 1)
    }
}

/// The text a block selection of lines `sl..=el`, columns `sc..ec` covers.
pub open spec fn block_text(d: Seq<Seq<char>>, sl: int, sc: int, el: int, ec: int) -> Seq<char> {
    concat_pieces(|i: int| block_piece(d, i, sc, ec, el), sl, el + 1)
}

/// The selection's columns can be cut out: a selection's start column lies
/// within its line whenever the text from there on is taken.
pub open spec fn selection_extractable(d: Seq<Seq<char>>, start: Position, end: Position) -> bool {
    start.0 < d.len() ==> if start.0 == end.0 {
        start.1 <= min_int(end.1 as int, d[start.0 as int].len() as int)
    } else {
        start.1 <= d[start.0 as int].len()
    }
}

/// Text of line `line_idx` between columns `start_col` and `end_col`
/// (clamped to the line); empty past the document.
pub fn extract_single_line_selection(lines: &[String], line_idx: usize, start_col: usize, end_col: usize) -> (r: String)
    requires
        line_idx < lines@.len() ==> start_col <= min_int(end_col as int, lines@[line_idx as int]@.len() as int),
    ensures
        r@ == selected_text(doc(lines@), (line_idx, start_col), (line_idx, end_col)),
{
    if line_idx >= lines.len() {
        return String::new();
    }
    let line = lines[line_idx].as_str();
    let n = line.unicode_len();
    let hi = if end_col < n { end_col } else { n };
    substring(line, start_col, hi)
}

/// Text of a selection over lines `start_line < end_line`.
pub fn extract_multi_line_selection(lines: &[String], start_line: usize, start_col: usize, end_line: usize, end_col: usize) -> (r: String)
    requires
        start_line < end_line,
        start_line < lines@.len() ==> start_col <= lines@[start_line as int]@.len(),
    ensures
        r@ == selected_text(doc(lines@), (start_line, start_col), (end_line, end_col)),
{
    let ghost d = doc(lines@);
    let ghost f = |i: int| multi_piece(d, i, start_line as int, start_col as int, end_line as int, end_col as int);
    let mut result = String::new();
    let mut i = start_line;
    assert(result@ =~= concat_pieces(f, start_line as int, i as int));
    while i <= end_line && i < lines.len()
        invariant
            start_line <= i,
            i <= end_line + 1,
            start_line < end_line,
            d == doc(lines@),
            f == (|i: int| multi_piece(d, i, start_line as int, start_col as int, end_line as int, end_col as int)),
            start_line < lines@.len() ==> start_col <= lines@[start_line as int]@.len(),
            result@ == concat_pieces(f, start_line as int, i as int),
        decreases end_line + 1 - i,
    {
        let line = lines[i].as_str();
        let n = line.unicode_len();
        if i == start_line {
            let tail = substring(line, start_col, n);
            result.append(tail.as_str());
            string_push(&mut result, '\n');
        } else if i == end_line {
            let hi = if end_col < n { end_col } else { n };
            let head = substring(line, 0, hi);
            result.append(head.as_str());
        } else {
            result.append(line);
            string_push(&mut result, '\n');
        }
        proof {
            assert(d[i as int] == lines@[i as int]@);
            assert(line@.skip(start_col as int) =~= line@.subrange(start_col as int, n as int));
            assert(line@.take(min_int(end_col as int, n as int)) =~= line@.subrange(0, min_int(end_col as int, n as int)));
            assert(result@ =~= concat_pieces(f, start_line as int, i as int) + f(i as int));
        }
        i = i + 1;
    }
    proof {
        assert forall|k: int| i <= k < end_line + 1 implies #[trigger] f(k).len() == 0 by {
            assert(k >= d.len());
        }
        lemma_concat_empty_tail(f, start_line as int, i as int, end_line + 1);
    }
    result
}

/// Text of a line-wise selection between two positions (in either order).
pub fn extract_selection(lines: &[String], sel_start: Position, sel_end: Position) -> (r: String)
    requires
        selection_extractable(doc(lines@), ordered(sel_start, sel_end).0, ordered(sel_start, sel_end).1),
    ensures
        r@ == selected_text(doc(lines@), ordered(sel_start, sel_end).0, ordered(sel_start, sel_end).1),
{
    let (start, end) = normalize_selection(sel_start, sel_end);
    let (start_line, start_col) = start;
    let (end_line, end_col) = end;
    if start_line == end_line {
        return extract_single_line_selection(lines, start_line, start_col, end_col);
    }
    extract_multi_line_selection(lines, start_line, start_col, end_line, end_col)
}

/// Text of a block selection: columns `start_col..end_col` of each line
/// `start_line..=end_line`, the lines separated by line breaks.
pub fn extract_block_selection(lines: &[String], start_line: usize, start_col: usize, end_line: usize, end_col: usize) -> (r: String)
    ensures
        r@ == block_text(doc(lines@), start_line as int, start_col as int, end_line as int, end_col as int),
{
    let ghost d = doc(lines@);
    let ghost f = |i: int| block_piece(d, i, start_col as int, end_col as int, end_line as int);
    let mut result = String::new();
    let mut i = start_line;
    assert(result@ =~= concat_pieces(f, start_line as int, i as int));
    while i <= end_line && i < lines.len()
        invariant
            start_line <= i,
            i <= end_line + 1 || i == start_line,
            d == doc(lines@),
            f == (|i: int| block_piece(d, i, start_col as int, end_col as int, end_line as int)),
            result@ == concat_pieces(f, start_line as int, i as int),
        decreases end_line + 1 - i,
    {
        let line = lines[i].as_str();
        let n = line.unicode_len();
        let a = if start_col < n { start_col } else { n };
        let b = if end_col < n { end_col } else { n };
        let ghost before = result@;
        if a < b {
            let part = substring(line, a, b);
            result.append(part.as_str());
        }
        if i < end_line {
            string_push(&mut result, '\n');
        }
        proof {
            assert(d[i as int] == lines@[i as int]@);
            assert(result@ =~= before + f(i as int));
        }
        i = i + 1;
    }
    proof {
        if i <= end_line + 1 {
            assert forall|k: int| i <= k < end_line + 1 implies #[trigger] f(k).len() == 0 by {
                assert(k >= d.len());
            }
            lemma_concat_empty_tail(f, start_line as int, i as int, end_line + 1);
        }
    }
    result
}

// ---------------------------------------------------------------------------
// Removing a selection
// ---------------------------------------------------------------------------

/// Line `l` without columns `a..b`.
pub open spec fn cut_columns(l: Seq<char>, a: int, b: int) -> Seq<char> {
    l.take(a) + l.skip(b)
}

/// The deletions that remove the characters `cs`, found at columns
/// `lo..lo + |cs|` of line `line`, last character first.
pub open spec fn range_deletes(line: int, lo: int, cs: Seq<char>) -> Seq<Edit>
    decreases cs.len(),
{
    if cs.len() == 0 {
        Seq::empty()
    } else {
        range_deletes(line, lo + 1, cs.drop_first()).push(Edit::DeleteChar { line: line as usize, col: lo as usize, ch: cs[0] })
    }
}

/// Columns of line `l` that a block selection of columns `sc..ec` covers.
pub open spec fn block_cols(l: Seq<char>, sc: int, ec: int) -> (int, int) {
    (min_int(sc, l.len() as int), min_int(ec, l.len() as int))
}

/// The deletions that remove a block selection's columns from line `i`.
pub open spec fn block_line_deletes(d: Seq<Seq<char>>, i: int, sc: int, ec: int) -> Seq<Edit> {
    let (a, b) = block_cols(d[i], sc, ec);
    if a < b { range_deletes(i, a, d[i].subrange(a, b)) } else { Seq::empty() }
}

/// The deletions that remove a block selection, line by line from the top.
pub open spec fn block_deletes(d: Seq<Seq<char>>, sl: int, el: int, sc: int, ec: int) -> Seq<Edit> {
    concat_pieces(|i: int| block_line_deletes(d, i, sc, ec), sl, el + 1)
}

/// `d` with columns `sc..ec` (clamped per line) removed from lines `sl..=el`.
pub open spec fn block_removed(d: Seq<Seq<char>>, sl: int, el: int, sc: int, ec: int) -> Seq<Seq<char>> {
    Seq::new(d.len(), |i: int| if sl <= i <= el {
        let (a, b) = block_cols(d[i], sc, ec);
        if a < b { cut_columns(d[i], a, b) } else { d[i] }
    } else {
        d[i]
    })
}

/// The document after removing the selection from `s` to `e` (document
/// order): a block selection loses its columns on each of its lines; a
/// line-wise selection within one line loses columns `s.1..e.1` (clamped); a
/// line-wise selection over several lines leaves the start line up to `s.1`
/// joined with the end line from `e.1` on (both clamped).
pub open spec fn selection_removed_doc(d: Seq<Seq<char>>, s: Position, e: Position, block: bool) -> Seq<Seq<char>> {
    let (sl, sc) = (s.0 as int, s.1 as int);
    let (el, ec) = (e.0 as int, e.1 as int);
    if block {
        block_removed(d, sl, el, sc, ec)
    } else if sl == el {
        d.update(sl, cut_columns(d[sl], sc, min_int(ec, d[sl].len() as int)))
    } else {
        d.take(sl) + seq![d[sl].take(min_int(sc, d[sl].len() as int)) + d[el].skip(min_int(ec, d[el].len() as int))] + d.skip(el + 1)
    }
}

/// Whether the selection from `s` to `e` (document order) is removed: both
/// ends lie on lines of the document, the ends differ, and a line-wise
/// selection within one line covers at least one character.
pub open spec fn removal_happens(d: Seq<Seq<char>>, s: Position, e: Position, block: bool) -> bool {
    &&& s.0 < d.len()
    &&& e.0 < d.len()
    &&& s != e
    &&& (block || s.0 != e.0 || s.1 < min_int(e.1 as int, d[s.0 as int].len() as int))
}

/// The deletions recorded when the line-wise selection from `s` to `e` over
/// several lines is removed: the start line's tail (when the start column is
/// inside it), the whole lines between, the end line's head, then the join
/// of what is left of the two lines.
pub open spec fn multi_line_removal_edits(es: Seq<Edit>, d: Seq<Seq<char>>, s: Position, e: Position) -> bool {
    let (sl, sc) = (s.0 as int, s.1 as int);
    let (el, ec) = (e.0 as int, e.1 as int);
    let tail = if sc < d[sl].len() { range_deletes(sl, sc, d[sl].skip(sc)) } else { Seq::empty() };
    let hl = min_int(ec, d[el].len() as int);
    let head = range_deletes(el, 0, d[el].take(hl));
    let nm = el - sl - 1;
    &&& es.len() == tail.len() + nm + head.len() + 1
    &&& es.take(tail.len() as int) == tail
    &&& forall|k: int| 0 <= k < nm ==> (#[trigger] es[tail.len() + k] matches Edit::DeleteLine { line, content }
        && line == sl + 1 + k && content@ == d[sl + 1 + k])
    &&& es.subrange(tail.len() + nm, tail.len() + nm + head.len()) == head
    &&& es.last() matches Edit::MergeLine { line, first, second }
        && line == sl && first@ == d[sl].take(min_int(sc, d[sl].len() as int)) && second@ == d[el].skip(hl)
}

/// The edits recorded when the selection from `s` to `e` is removed.
pub open spec fn removal_edits(es: Seq<Edit>, d: Seq<Seq<char>>, s: Position, e: Position, block: bool) -> bool {
    if block {
        es == block_deletes(d, s.0 as int, e.0 as int, s.1 as int, e.1 as int)
    } else if s.0 == e.0 {
        es == range_deletes(s.0 as int, s.1 as int, d[s.0 as int].subrange(s.1 as int, min_int(e.1 as int, d[s.0 as int].len() as int)))
    } else {
        multi_line_removal_edits(es, d, s, e)
    }
}

/// `new` is `old` with the edits `es` pushed as one composite undo step
/// (restoring cursor `(line, col)` and the extra cursors `multi`), or
/// unchanged in its edits when there are none.
pub open spec fn composite_pushed(new: UndoHistory, old: UndoHistory, es: Seq<Edit>, line: usize, col: usize, multi: Seq<Position>) -> bool {
    &&& es.len() > 0 ==> {
        &&& new.edits@.len() == undoable(old).len() + 1
        &&& new.edits@.take(undoable(old).len() as int) == undoable(old)
        &&& match new.edits@.last() {
            Edit::CompositeEdit { edits, undo_cursor } => edits@ == es && match undo_cursor {
                Some(c) => c.0 == line && c.1 == col && c.2@ == multi,
                None => false,
            },
            _ => false,
        }
        &&& new.current == new.edits@.len()
        &&& new.modified
    }
    &&& es.len() == 0 ==> new.edits == old.edits && new.current == old.current && new.modified == old.modified
    &&& new.find_history == old.find_history
}

/// The state after the selection starting at `s` was removed with the edits
/// `es`: the edits form one undo step, the cursor sits at `s` (the view
/// unchanged), the selection is gone, the file is modified and redrawn, and
/// the history snapshot holds `lines`.
pub open spec fn selection_removed_state(new: FileViewerState, old: FileViewerState, lines: Seq<String>, es: Seq<Edit>, s: Position, block: bool) -> bool {
    let cl = sat_sub(s.0 as int, old.top_line as int);
    let snap = if block {
        match old.saved_absolute_cursor { Some(l) => l as int, None => old.top_line + cl }
    } else {
        old.top_line + cl
    };
    &&& same_outside_editing(new, old)
    &&& composite_pushed(new.undo_history, old.undo_history, es, s.0, s.1, old.multi_cursors@)
    &&& new.undo_history.top_line == old.top_line
    &&& new.undo_history.cursor_line == snap
    &&& new.undo_history.cursor_col == s.1
    &&& new.undo_history.content@ == lines
    &&& new.top_line == old.top_line
    &&& new.cursor_line == cl
    &&& new.cursor_col == s.1
    &&& new.desired_cursor_col == old.desired_cursor_col
    &&& new.cursor_at_wrap_end == old.cursor_at_wrap_end
    &&& new.selection_start is None && new.selection_end is None && new.selection_anchor is None
    &&& !new.block_selection
    &&& new.multi_cursors == old.multi_cursors
    &&& new.modified
    &&& new.needs_redraw
    &&& new.saved_absolute_cursor == old.saved_absolute_cursor
    &&& new.saved_scroll_state == old.saved_scroll_state
}

/// Record the deletions of characters `a..b` of `l` (line `line`), last first.
fn push_range_deletes(edits: &mut Vec<Edit>, line: usize, l: &str, a: usize, b: usize)
    requires
        a <= b <= l@.len(),
    ensures
        final(edits)@ == old(edits)@ + range_deletes(line as int, a as int, l@.subrange(a as int, b as int)),
{
    let ghost base = edits@;
    let mut k = b;
    assert(edits@ =~= base + range_deletes(line as int, k as int, l@.subrange(k as int, b as int)));
    while k > a
        invariant
            a <= k <= b,
            b <= l@.len(),
            edits@ == base + range_deletes(line as int, k as int, l@.subrange(k as int, b as int)),
        decreases k,
    {
        let ch = l.get_char(k - 1);
        edits.push(Edit::DeleteChar { line, col: k - 1, ch });
        proof {
            let cs = l@.subrange(k - 1, b as int);
            assert(cs.drop_first() =~= l@.subrange(k as int, b as int));
            assert(cs[0] == ch);
            assert(edits@ =~= base + range_deletes(line as int, k - 1, cs));
        }
        k = k - 1;
    }
}

/// Remove characters `a..b` of line `line`, recording their deletions.
fn remove_in_line(lines: &mut Vec<String>, edits: &mut Vec<Edit>, line: usize, a: usize, b: usize)
    requires
        line < old(lines)@.len(),
        a <= b <= old(lines)@[line as int]@.len(),
    ensures
        doc(final(lines)@) == doc(old(lines)@).update(line as int, cut_columns(doc(old(lines)@)[line as int], a as int, b as int)),
        final(edits)@ == old(edits)@ + range_deletes(line as int, a as int, doc(old(lines)@)[line as int].subrange(a as int, b as int)),
{
    let ghost d = doc(lines@);
    let l = lines[line].as_str();
    push_range_deletes(edits, line, l, a, b);
    let n = l.unicode_len();
    let head = substring(l, 0, a);
    let rest = substring(l, b, n);
    let joined = concat_str(head.as_str(), rest.as_str());
    lines.set(line, joined);
    proof {
        assert(d[line as int] == old(lines)@[line as int]@);
        assert(joined@ =~= cut_columns(d[line as int], a as int, b as int));
        assert(doc(lines@) =~= d.update(line as int, cut_columns(d[line as int], a as int, b as int)));
    }
}

/// Remove columns `sc..ec` (clamped per line) from lines `sl..=el`,
/// returning the deletions.
fn remove_block(lines: &mut Vec<String>, sl: usize, el: usize, sc: usize, ec: usize) -> (edits: Vec<Edit>)
    requires
        sl <= el < old(lines)@.len(),
    ensures
        doc(final(lines)@) == block_removed(doc(old(lines)@), sl as int, el as int, sc as int, ec as int),
        edits@ == block_deletes(doc(old(lines)@), sl as int, el as int, sc as int, ec as int),
{
    let ghost d = doc(lines@);
    let ghost f = |i: int| block_line_deletes(d, i, sc as int, ec as int);
    let mut edits: Vec<Edit> = Vec::new();
    let mut i = sl;
    assert(edits@ =~= concat_pieces(f, sl as int, sl as int));
    assert(doc(lines@) =~= Seq::new(d.len(), |k: int| if sl <= k < i {
            let (a, b) = block_cols(d[k], sc as int, ec as int);
            if a < b { cut_columns(d[k], a, b) } else { d[k] }
        } else { d[k] }));
    while i <= el && i < lines.len()
        invariant
            sl <= i <= el + 1,
            el < d.len(),
            lines@.len() == d.len(),
            f == (|i: int| block_line_deletes(d, i, sc as int, ec as int)),
            edits@ == concat_pieces(f, sl as int, i as int),
            doc(lines@) == Seq::new(d.len(), |k: int| if sl <= k < i {
                let (a, b) = block_cols(d[k], sc as int, ec as int);
                if a < b { cut_columns(d[k], a, b) } else { d[k] }
            } else { d[k] }),
        decreases el + 1 - i,
    {
        let ghost before = edits@;
        let ghost dl = doc(lines@);
        assert(dl[i as int] == d[i as int]);
        let n = lines[i].as_str().unicode_len();
        let a = if sc < n { sc } else { n };
        let b = if ec < n { ec } else { n };
        if a < b {
            remove_in_line(lines, &mut edits, i, a, b);
        }
        proof {
            assert(edits@ =~= before + f(i as int));
            assert(doc(lines@) =~= Seq::new(d.len(), |k: int| if sl <= k < i + 1 {
                let (a, b) = block_cols(d[k], sc as int, ec as int);
                if a < b { cut_columns(d[k], a, b) } else { d[k] }
            } else { d[k] }));
        }
        i = i + 1;
    }
    assert(doc(lines@) =~= block_removed(d, sl as int, el as int, sc as int, ec as int));
    edits
}

/// Remove the line-wise selection from `(sl, sc)` to `(el, ec)` over several
/// lines, returning the recorded edits.
fn remove_across_lines(lines: &mut Vec<String>, sl: usize, sc: usize, el: usize, ec: usize) -> (edits: Vec<Edit>)
    requires
        sl < el < old(lines)@.len(),
    ensures
        doc(final(lines)@) == selection_removed_doc(doc(old(lines)@), (sl, sc), (el, ec), false),
        multi_line_removal_edits(edits@, doc(old(lines)@), (sl, sc), (el, ec)),
{
    let ghost d = doc(lines@);
    let mut edits: Vec<Edit> = Vec::new();
    // the start line's tail
    let ns = lines[sl].as_str().unicode_len();
    if sc < ns {
        let kept = substring(lines[sl].as_str(), 0, sc);
        push_range_deletes(&mut edits, sl, lines[sl].as_str(), sc, ns);
        lines.set(sl, kept);
    }
    let ghost tail = edits@;
    proof {
        assert(d[sl as int] == old(lines)@[sl as int]@);
        assert(d[sl as int].subrange(sc as int, ns as int) =~= d[sl as int].skip(sc as int));
        assert(lines@[sl as int]@ =~= d[sl as int].take(min_int(sc as int, d[sl as int].len() as int)));
        assert(tail == if sc < d[sl as int].len() { range_deletes(sl as int, sc as int, d[sl as int].skip(sc as int)) } else { Seq::empty() });
    }
    // the whole lines between
    let mut k = sl + 1;
    while k < el
        invariant
            sl < k <= el,
            el < lines@.len(),
            lines@.len() == d.len(),
            forall|j: int| 0 <= j < d.len() && j != sl ==> #[trigger] lines@[j]@ == d[j],
            lines@[sl as int]@ == d[sl as int].take(min_int(sc as int, d[sl as int].len() as int)),
            edits@.len() == tail.len() + (k - sl - 1),
            edits@.take(tail.len() as int) == tail,
            forall|j: int| 0 <= j < k - sl - 1 ==> (#[trigger] edits@[tail.len() + j] matches Edit::DeleteLine { line, content }
                && line == sl + 1 + j && content@ == d[sl + 1 + j]),
        decreases el - k,
    {
        let content = lines[k].clone();
        let ghost before = edits@;
        edits.push(Edit::DeleteLine { line: k, content });
        proof {
            assert(edits@.take(tail.len() as int) =~= before.take(tail.len() as int));
            assert(edits@[tail.len() + (k - sl - 1)] == Edit::DeleteLine { line: k, content: lines@[k as int] });
            assert forall|j: int| 0 <= j < k + 1 - sl - 1 implies (#[trigger] edits@[tail.len() + j] matches Edit::DeleteLine { line, content }
                && line == sl + 1 + j && content@ == d[sl + 1 + j]) by {
                if j < k - sl - 1 {
                    assert(edits@[tail.len() + j] == before[tail.len() + j]);
                }
            }
        }
        k = k + 1;
    }
    let ghost mid_len = edits@.len();
    // the end line's head
    let ne = lines[el].as_str().unicode_len();
    let hl = if ec < ne { ec } else { ne };
    let rest = substring(lines[el].as_str(), hl, ne);
    push_range_deletes(&mut edits, el, lines[el].as_str(), 0, hl);
    lines.set(el, rest);
    proof {
        assert(d[el as int].subrange(0, hl as int) =~= d[el as int].take(hl as int));
        assert(lines@[el as int]@ =~= d[el as int].skip(hl as int));
    }
    let ghost head_end = edits@.len();
    // join what is left of the two lines
    let first = lines[sl].clone();
    let second = lines[el].clone();
    let joined = concat_str(first.as_str(), second.as_str());
    edits.push(Edit::MergeLine { line: sl, first, second });
    lines.set(sl, joined);
    let ghost joined_doc = doc(lines@);
    let mut r: usize = 0;
    while r < el - sl
        invariant
            sl < el,
            el < d.len(),
            r <= el - sl,
            lines@.len() == d.len() - r,
            doc(lines@) == joined_doc.take(sl + 1) + joined_doc.skip(sl + 1 + r),
            joined_doc.len() == d.len(),
        decreases el - sl - r,
    {
        let ghost before = doc(lines@);
        lines.remove(sl + 1);
        proof {
            assert(doc(lines@) =~= before.remove(sl + 1));
            assert(doc(lines@) =~= joined_doc.take(sl + 1) + joined_doc.skip(sl + 1 + r + 1));
        }
        r = r + 1;
    }
    proof {
        let hlm = min_int(ec as int, d[el as int].len() as int);
        assert(hl == hlm);
        assert(joined_doc[sl as int] == d[sl as int].take(min_int(sc as int, d[sl as int].len() as int)) + d[el as int].skip(hlm));
        assert forall|j: int| 0 <= j < d.len() && j != sl && j != el implies joined_doc[j] == d[j] by {
        }
        assert(doc(lines@) =~= selection_removed_doc(d, (sl, sc), (el, ec), false));
        let es = edits@;
        let head = range_deletes(el as int, 0, d[el as int].take(hlm));
        assert(es.take(tail.len() as int) =~= tail);
        assert(es.subrange(tail.len() + (el - sl - 1), tail.len() + (el - sl - 1) + head.len()) =~= head);
        assert forall|j: int| 0 <= j < el - sl - 1 implies (#[trigger] es[tail.len() + j] matches Edit::DeleteLine { line, content }
            && line == sl + 1 + j && content@ == d[sl + 1 + j]) by {
            assert(es[tail.len() + j] == edits@[tail.len() + j]);
        }
    }
    edits
}

/// Record the removal edits as one undo step and put the cursor at the
/// selection start `s`, clearing the selection (see
/// `selection_removed_state`).
fn finish_removal(state: &mut FileViewerState, lines: &Vec<String>, edits: Vec<Edit>, s: Position, block: bool)
    ensures
        selection_removed_state(*final(state), *old(state), lines@, edits@, s, block),
{
    let top = state.top_line;
    let cl = if s.0 >= top { s.0 - top } else { 0 };
    let snap = if block {
        match state.saved_absolute_cursor {
            Some(l) => l,
            None => top + cl,
        }
    } else {
        top + cl
    };
    let ghost base = undoable(state.undo_history);
    let ghost es = edits@;
    let multi = copy_positions(&state.multi_cursors);
    state.undo_history.push_composite(edits, Some((s.0, s.1, multi)));
    proof {
        if es.len() > 0 {
            assert(state.undo_history.edits@.take(base.len() as int) =~= base);
        }
    }
    state.cursor_line = cl;
    state.cursor_col = s.1;
    state.selection_start = None;
    state.selection_end = None;
    state.selection_anchor = None;
    state.block_selection = false;
    state.modified = true;
    state.undo_history.update_state(top, snap, s.1, copy_lines(lines));
    state.needs_redraw = true;
}

/// What `remove_selection` does: see there.
pub open spec fn selection_removal(old: FileViewerState, new: FileViewerState, old_lines: Seq<String>, new_lines: Seq<String>, removed: bool) -> bool {
    match old.spec_selection_range() {
        None => !removed && new == old && new_lines == old_lines,
        Some((s, e)) => {
            let d = doc(old_lines);
            let block = old.block_selection;
            &&& removed == removal_happens(d, s, e, block)
            &&& removed ==> doc(new_lines) == selection_removed_doc(d, s, e, block)
                && exists|es: Seq<Edit>| #[trigger] removal_edits(es, d, s, e, block)
                    && selection_removed_state(new, old, new_lines, es, s, block)
            &&& !removed ==> new_lines == old_lines && new == (FileViewerState {
                selection_start: None,
                selection_end: None,
                selection_anchor: None,
                block_selection: false,
                needs_redraw: true,
                ..old
            })
        },
    }
}

/// Delete the selected text.  A block selection loses its columns on each of
/// its lines; a line-wise selection loses the text from its start to its end,
/// joining the start and end lines.  All deletions form one undo step, and
/// the cursor moves to the selection start.  Returns `false`, only clearing
/// the selection, when an end lies past the document, the selection is empty,
/// or a line-wise selection within one line starts at or past the line's
/// end; `false` without any change when there is no selection.
pub fn remove_selection(state: &mut FileViewerState, lines: &mut Vec<String>) -> (removed: bool)
    ensures
        selection_removal(*old(state), *final(state), old(lines)@, final(lines)@, removed),
{
    let range = state.selection_range();
    let (sel_start, sel_end) = match range {
        Some(r) => r,
        None => return false,
    };
    let (s_line, s_col) = sel_start;
    let (e_line, e_col) = sel_end;
    if s_line >= lines.len() || e_line >= lines.len() || (s_line == e_line && s_col == e_col) {
        state.clear_selection();
        return false;
    }
    let ghost d = doc(lines@);
    if state.block_selection {
        let edits = remove_block(lines, s_line, e_line, s_col, e_col);
        let ghost es = edits@;
        finish_removal(state, lines, edits, sel_start, true);
        assert(removal_edits(es, d, sel_start, sel_end, true));
        return true;
    }
    if s_line == e_line {
        let n = lines[s_line].as_str().unicode_len();
        let end_col = if e_col < n { e_col } else { n };
        if s_col >= end_col {
            state.clear_selection();
            return false;
        }
        let mut edits: Vec<Edit> = Vec::new();
        remove_in_line(lines, &mut edits, s_line, s_col, end_col);
        let ghost es = edits@;
        assert(es =~= range_deletes(s_line as int, s_col as int, d[s_line as int].subrange(s_col as int, end_col as int)));
        finish_removal(state, lines, edits, sel_start, false);
        assert(removal_edits(es, d, sel_start, sel_end, false));
        return true;
    }
    let edits = remove_across_lines(lines, s_line, s_col, e_line, e_col);
    let ghost es = edits@;
    finish_removal(state, lines, edits, sel_start, false);
    assert(removal_edits(es, d, sel_start, sel_end, false));
    true
}

// ---------------------------------------------------------------------------
// Copy and cut
// ---------------------------------------------------------------------------

/// The text that copying puts on the clipboard: a block selection's columns
/// or a line-wise selection's text; `None` without a selection.  (The
/// clipboard itself is written by the caller.)
pub fn handle_copy(state: &FileViewerState, lines: &[String]) -> (r: Option<String>)
    requires
        !state.block_selection ==> (state.spec_selection_range() matches Some((s, e))
            ==> selection_extractable(doc(lines@), s, e)),
    ensures
        match state.spec_selection_range() {
            None => r is None,
            Some((s, e)) => r matches Some(t) && t@ == if state.block_selection {
                block_text(doc(lines@), s.0 as int, s.1 as int, e.0 as int, e.1 as int)
            } else {
                selected_text(doc(lines@), s, e)
            },
        },
{
    match (state.selection_start, state.selection_end) {
        (Some(sel_start), Some(sel_end)) => {
            if state.block_selection {
                let (start, end) = normalize_selection(sel_start, sel_end);
                Some(extract_block_selection(lines, start.0, start.1, end.0, end.1))
            } else {
                Some(extract_selection(lines, sel_start, sel_end))
            }
        },
        _ => None,
    }
}

/// What cutting the cursor's line (no selection) does: the line is deleted
/// (one recorded `DeleteLine`), the cursor goes to the start of the line that
/// takes its place, or, when it was the last line, to the previous line
/// (keeping its column as far as that line reaches); the file is modified and
/// redrawn.
pub open spec fn line_cut(old: FileViewerState, new: FileViewerState, ol: Seq<String>, nl: Seq<String>) -> bool {
    let abs = old.spec_absolute_line();
    let rest = doc(ol).remove(abs);
    let last = abs >= rest.len() && abs > 0;
    let cl = if last { sat_sub(abs - 1, old.top_line as int) } else { sat_sub(abs, old.top_line as int) };
    let col = if last { min_int(rest[abs - 1].len() as int, old.cursor_col as int) } else { 0 };
    &&& doc(nl) == rest
    &&& same_outside_editing(new, old)
    &&& new.undo_history.edits@ == undoable(old.undo_history).push(Edit::DeleteLine { line: abs as usize, content: ol[abs] })
    &&& new.undo_history.current == new.undo_history.edits@.len()
    &&& new.undo_history.modified
    &&& new.undo_history.find_history == old.undo_history.find_history
    &&& new.undo_history.top_line == old.top_line
    &&& new.undo_history.cursor_line == new.spec_absolute_line()
    &&& new.undo_history.cursor_col == col
    &&& new.undo_history.content@ == nl
    &&& new.top_line == old.top_line
    &&& new.cursor_line == cl
    &&& new.cursor_col == col
    &&& new.desired_cursor_col == old.desired_cursor_col
    &&& new.cursor_at_wrap_end == old.cursor_at_wrap_end
    &&& new.selection_start == old.selection_start
    &&& new.selection_end == old.selection_end
    &&& new.selection_anchor == old.selection_anchor
    &&& new.block_selection == old.block_selection
    &&& new.multi_cursors == old.multi_cursors
    &&& new.modified
    &&& new.needs_redraw
    &&& new.saved_absolute_cursor == old.saved_absolute_cursor
    &&& new.saved_scroll_state == old.saved_scroll_state
}

/// Cursor row and column after cutting line `abs` (see `line_cut`), and the
/// absolute cursor line then.
pub open spec fn line_cut_cursor(old: FileViewerState, d: Seq<Seq<char>>, abs: int) -> (int, int, int) {
    let last = abs + 1 == d.len() && abs > 0;
    let cl = if last { sat_sub(abs - 1, old.top_line as int) } else { sat_sub(abs, old.top_line as int) };
    let col = if last { min_int(d[abs - 1].len() as int, old.cursor_col as int) } else { 0 };
    let new_abs = match old.saved_absolute_cursor { Some(l) => l as int, None => old.top_line + cl };
    (cl, col, new_abs)
}

/// Computes `line_cut_cursor`.
fn cut_cursor(state: &FileViewerState, lines: &Vec<String>, abs: usize) -> (r: (usize, usize, usize))
    requires
        abs < lines@.len(),
    ensures
        r.0 == line_cut_cursor(*state, doc(lines@), abs as int).0,
        r.1 == line_cut_cursor(*state, doc(lines@), abs as int).1,
        r.2 == line_cut_cursor(*state, doc(lines@), abs as int).2,
{
    let top = state.top_line;
    let last = abs == lines.len() - 1 && abs > 0;
    let cl = if last {
        if abs - 1 >= top { abs - 1 - top } else { 0 }
    } else {
        if abs >= top { abs - top } else { 0 }
    };
    let col = if last {
        let n = lines[abs - 1].as_str().unicode_len();
        if n < state.cursor_col { n } else { state.cursor_col }
    } else {
        0
    };
    let new_abs = match state.saved_absolute_cursor {
        Some(l) => l,
        None => top + cl,
    };
    (cl, col, new_abs)
}

/// Delete the cursor's line `abs` (see `line_cut`).
fn cut_line(state: &mut FileViewerState, lines: &mut Vec<String>, abs: usize)
    requires
        abs == old(state).spec_absolute_line(),
        abs < old(lines)@.len(),
    ensures
        line_cut(*old(state), *final(state), old(lines)@, final(lines)@),
{
    let ghost d = doc(lines@);
    let (cl, col, new_abs) = cut_cursor(state, lines, abs);
    let top = state.top_line;
    let content = lines[abs].clone();
    state.undo_history.push(Edit::DeleteLine { line: abs, content });
    lines.remove(abs);
    proof {
        assert(doc(lines@) =~= d.remove(abs as int));
        if abs + 1 == d.len() && abs > 0 {
            assert(doc(lines@)[abs - 1] == d[abs - 1]);
        }
    }
    state.cursor_line = cl;
    state.cursor_col = col;
    state.modified = true;
    state.undo_history.update_state(top, new_abs, col, copy_lines(lines));
    state.needs_redraw = true;
}

/// Cut: with a selection, its text (as a line-wise selection) goes to the
/// clipboard and the selection is removed as `remove_selection` does;
/// without one, the cursor's line with a line break goes to the clipboard and
/// the line is deleted (see `line_cut`).  Returns whether the document
/// changed and the clipboard text (`None` when the cursor is past the last
/// line, nothing changing then).  The clipboard itself is written by the
/// caller.
pub fn handle_cut(state: &mut FileViewerState, lines: &mut Vec<String>) -> (r: (bool, Option<String>))
    requires
        old(state).top_line + old(state).cursor_line <= usize::MAX,
        old(state).spec_selection_range() matches Some((s, e)) ==> selection_extractable(doc(old(lines)@), s, e),
    ensures
        match old(state).spec_selection_range() {
            Some((s, e)) => r.1 matches Some(t) && t@ == selected_text(doc(old(lines)@), s, e)
                && selection_removal(*old(state), *final(state), old(lines)@, final(lines)@, r.0),
            None => {
                let abs = old(state).spec_absolute_line();
                if abs < old(lines)@.len() {
                    &&& r.0
                    &&& r.1 matches Some(t) && t@ == doc(old(lines)@)[abs].push('\n')
                    &&& line_cut(*old(state), *final(state), old(lines)@, final(lines)@)
                } else {
                    !r.0 && r.1 is None && *final(state) == *old(state) && final(lines)@ == old(lines)@
                }
            },
        },
{
    if state.has_selection() {
        let sel_start = match state.selection_start { Some(p) => p, None => (0, 0) };
        let sel_end = match state.selection_end { Some(p) => p, None => (0, 0) };
        let text = extract_selection(lines, sel_start, sel_end);
        let removed = remove_selection(state, lines);
        return (removed, Some(text));
    }
    let abs = state.absolute_line();
    if abs >= lines.len() {
        return (false, None);
    }
    let mut text = lines[abs].clone();
    string_push(&mut text, '\n');
    cut_line(state, lines, abs);
    (true, Some(text))
}

// ---------------------------------------------------------------------------
// Paste
// ---------------------------------------------------------------------------

/// `p` without one trailing carriage return.
pub open spec fn strip_cr(p: Seq<char>) -> Seq<char> {
    if p.len() > 0 && p.last() == '\r' { p.drop_last() } else { p }
}

/// The lines of pasted text: the text split at each line break, a carriage
/// return just before a line break dropped.  A text ending in a line break
/// ends with an empty piece.
pub open spec fn paste_pieces(t: Seq<char>) -> Seq<Seq<char>>
    decreases t.len(),
{
    if t.len() == 0 {
        seq![Seq::empty()]
    } else {
        let rest = paste_pieces(t.drop_last());
        if t.last() == '\n' {
            rest.update(rest.len() - 1, strip_cr(rest.last())).push(Seq::empty())
        } else {
            rest.update(rest.len() - 1, rest.last().push(t.last()))
        }
    }
}

/// There is always at least one piece.
proof fn lemma_paste_pieces_len(t: Seq<char>)
    ensures
        paste_pieces(t).len() >= 1,
        paste_pieces(t).len() <= t.len() + 1,
        forall|i: int| 0 <= i < paste_pieces(t).len() ==> #[trigger] paste_pieces(t)[i].len() <= t.len(),
    decreases t.len(),
{
    if t.len() > 0 {
        lemma_paste_pieces_len(t.drop_last());
    }
}

/// Split pasted text into its lines (see `paste_pieces`).
pub fn split_paste(text: &str) -> (r: Vec<String>)
    ensures
        doc(r@) == paste_pieces(text@),
{
    let cs = chars_of(text);
    let mut done: Vec<String> = Vec::new();
    let mut cur = String::new();
    let mut i: usize = 0;
    assert(cs@.take(0) =~= Seq::<char>::empty());
    assert(doc(done@).push(cur@) =~= paste_pieces(cs@.take(0)));
    while i < cs.len()
        invariant
            i <= cs@.len(),
            cs@ == text@,
            doc(done@).push(cur@) == paste_pieces(cs@.take(i as int)),
        decreases cs@.len() - i,
    {
        let c = cs[i];
        let ghost t = cs@.take(i + 1);
        assert(t.drop_last() =~= cs@.take(i as int));
        let ghost rest = paste_pieces(t.drop_last());
        if c == '\n' {
            let n = cur.as_str().unicode_len();
            let piece = if n > 0 && cur.as_str().get_char(n - 1) == '\r' {
                substring(cur.as_str(), 0, n - 1)
            } else {
                cur
            };
            assert(piece@ =~= strip_cr(rest.last()));
            done.push(piece);
            cur = String::new();
            assert(doc(done@).push(cur@) =~= rest.update(rest.len() - 1, strip_cr(rest.last())).push(Seq::empty()));
        } else {
            string_push(&mut cur, c);
            assert(doc(done@).push(cur@) =~= rest.update(rest.len() - 1, rest.last().push(c)));
        }
        i = i + 1;
    }
    assert(cs@.take(cs@.len() as int) =~= cs@);
    done.push(cur);
    assert(doc(done@) =~= paste_pieces(text@));
    done
}

/// The selection (in document order) that pasting replaces: there is one and
/// both its ends lie on lines of the document.
pub open spec fn paste_sel(old: FileViewerState, d: Seq<Seq<char>>) -> Option<(Position, Position)> {
    match old.spec_selection_range() {
        Some((s, e)) => if s.0 < d.len() && e.0 < d.len() { Some((s, e)) } else { None },
        None => None,
    }
}

/// The document once pasting has removed the selection (line-wise).
pub open spec fn paste_cleared_doc(old: FileViewerState, d: Seq<Seq<char>>) -> Seq<Seq<char>> {
    match paste_sel(old, d) {
        Some((s, e)) => if removal_happens(d, s, e, false) { selection_removed_doc(d, s, e, false) } else { d },
        None => d,
    }
}

/// Cursor row, column and remembered column once pasting has removed the
/// selection: the cursor goes to the selection start, its column clamped to
/// the line it then points at.
pub open spec fn paste_cleared_cursor(old: FileViewerState, d1: Seq<Seq<char>>, sel: Option<(Position, Position)>) -> (int, int, int) {
    match sel {
        Some((s, e)) => {
            let cl = sat_sub(s.0 as int, old.top_line as int);
            let abs = match old.saved_absolute_cursor { Some(l) => l as int, None => old.top_line + cl };
            if 0 <= abs < d1.len() {
                let c = min_int(s.1 as int, d1[abs].len() as int);
                (cl, c, c)
            } else {
                (cl, old.cursor_col as int, old.desired_cursor_col as int)
            }
        },
        None => (old.cursor_line as int, old.cursor_col as int, old.desired_cursor_col as int),
    }
}

/// The first step of pasting: the selection's text removed (recording the
/// edits `es`), the cursor at its start, the selection cleared.
pub open spec fn paste_cleared(old: FileViewerState, new: FileViewerState, ol: Seq<String>, nl: Seq<String>, es: Seq<Edit>) -> bool {
    let d = doc(ol);
    let sel = paste_sel(old, d);
    let d1 = paste_cleared_doc(old, d);
    let c = paste_cleared_cursor(old, d1, sel);
    let removes = sel matches Some((s, e)) && removal_happens(d, s, e, false);
    &&& doc(nl) == d1
    &&& removes ==> (sel matches Some((s, e)) && removal_edits(es, d, s, e, false))
    &&& !removes ==> es.len() == 0
    &&& same_outside_editing(new, old)
    &&& new.undo_history == old.undo_history
    &&& new.top_line == old.top_line
    &&& new.cursor_line == c.0
    &&& new.cursor_col == c.1
    &&& new.desired_cursor_col == c.2
    &&& new.cursor_at_wrap_end == old.cursor_at_wrap_end
    &&& new.multi_cursors == old.multi_cursors
    &&& new.modified == old.modified
    &&& new.saved_absolute_cursor == old.saved_absolute_cursor
    &&& new.saved_scroll_state == old.saved_scroll_state
    &&& old.spec_has_selection() ==> new.selection_start is None && new.selection_end is None
        && new.selection_anchor is None && !new.block_selection && new.needs_redraw
    &&& !old.spec_has_selection() ==> new.selection_start == old.selection_start && new.selection_end == old.selection_end
        && new.selection_anchor == old.selection_anchor && new.block_selection == old.block_selection
        && new.needs_redraw == old.needs_redraw
}

/// Remove the line-wise selection from `s` to `e` (both on lines of the
/// document) as pasting does, returning the edits.
fn paste_delete_text(lines: &mut Vec<String>, s: Position, e: Position) -> (es: Vec<Edit>)
    requires
        s.0 < old(lines)@.len(),
        e.0 < old(lines)@.len(),
        pos_le(s, e),
    ensures
        removal_happens(doc(old(lines)@), s, e, false) ==> doc(final(lines)@) == selection_removed_doc(doc(old(lines)@), s, e, false)
            && removal_edits(es@, doc(old(lines)@), s, e, false),
        !removal_happens(doc(old(lines)@), s, e, false) ==> final(lines)@ == old(lines)@ && es@.len() == 0,
{
    let ghost d = doc(lines@);
    let mut edits: Vec<Edit> = Vec::new();
    if s.0 == e.0 {
        let n = lines[s.0].as_str().unicode_len();
        let end_col = if e.1 < n { e.1 } else { n };
        if s.1 < end_col {
            remove_in_line(lines, &mut edits, s.0, s.1, end_col);
            assert(edits@ =~= range_deletes(s.0 as int, s.1 as int, d[s.0 as int].subrange(s.1 as int, end_col as int)));
        }
        edits
    } else {
        remove_across_lines(lines, s.0, s.1, e.0, e.1)
    }
}

/// Put the cursor at `s` (its column clamped to the line it then points
/// at) and clear the selection.
fn cursor_to_selection_start(state: &mut FileViewerState, lines: &Vec<String>, s: Position)
    ensures
        ({
            let cl = sat_sub(s.0 as int, old(state).top_line as int);
            let abs = match old(state).saved_absolute_cursor { Some(l) => l as int, None => old(state).top_line + cl };
            let d = doc(lines@);
            let c = if 0 <= abs < d.len() { min_int(s.1 as int, d[abs].len() as int) } else { old(state).cursor_col as int };
            let dc = if 0 <= abs < d.len() { c } else { old(state).desired_cursor_col as int };
            &&& same_outside_editing(*final(state), *old(state))
            &&& final(state).undo_history == old(state).undo_history
            &&& final(state).top_line == old(state).top_line
            &&& final(state).cursor_line == cl
            &&& final(state).cursor_col == c
            &&& final(state).desired_cursor_col == dc
            &&& final(state).cursor_at_wrap_end == old(state).cursor_at_wrap_end
            &&& final(state).multi_cursors == old(state).multi_cursors
            &&& final(state).modified == old(state).modified
            &&& final(state).saved_absolute_cursor == old(state).saved_absolute_cursor
            &&& final(state).saved_scroll_state == old(state).saved_scroll_state
            &&& final(state).selection_start is None && final(state).selection_end is None
            &&& final(state).selection_anchor is None && !final(state).block_selection && final(state).needs_redraw
        }),
{
    let top = state.top_line;
    let cl = if s.0 >= top { s.0 - top } else { 0 };
    let abs = match state.saved_absolute_cursor {
        Some(l) => l,
        None => top + cl,
    };
    let (c, dc) = if abs < lines.len() {
        let n = lines[abs].as_str().unicode_len();
        let c = if s.1 < n { s.1 } else { n };
        (c, c)
    } else {
        (state.cursor_col, state.desired_cursor_col)
    };
    state.cursor_line = cl;
    state.cursor_col = c;
    state.desired_cursor_col = dc;
    state.selection_start = None;
    state.selection_end = None;
    state.selection_anchor = None;
    state.block_selection = false;
    state.needs_redraw = true;
}

/// Clear the selection (pasting where it lies past the document).
fn drop_selection(state: &mut FileViewerState)
    ensures
        same_outside_editing(*final(state), *old(state)),
        final(state).undo_history == old(state).undo_history,
        final(state).top_line == old(state).top_line,
        final(state).cursor_line == old(state).cursor_line,
        final(state).cursor_col == old(state).cursor_col,
        final(state).desired_cursor_col == old(state).desired_cursor_col,
        final(state).cursor_at_wrap_end == old(state).cursor_at_wrap_end,
        final(state).multi_cursors == old(state).multi_cursors,
        final(state).modified == old(state).modified,
        final(state).saved_absolute_cursor == old(state).saved_absolute_cursor,
        final(state).saved_scroll_state == old(state).saved_scroll_state,
        final(state).selection_start is None && final(state).selection_end is None,
        final(state).selection_anchor is None && !final(state).block_selection && final(state).needs_redraw,
{
    state.selection_start = None;
    state.selection_end = None;
    state.selection_anchor = None;
    state.block_selection = false;
    state.needs_redraw = true;
}

/// The first step of pasting (see `paste_cleared`).
fn paste_remove_selection(state: &mut FileViewerState, lines: &mut Vec<String>) -> (es: Vec<Edit>)
    ensures
        paste_cleared(*old(state), *final(state), old(lines)@, final(lines)@, es@),
{
    let range = state.selection_range();
    match range {
        None => Vec::new(),
        Some((s, e)) => {
            if s.0 < lines.len() && e.0 < lines.len() {
                let edits = paste_delete_text(lines, s, e);
                cursor_to_selection_start(state, lines, s);
                edits
            } else {
                drop_selection(state);
                Vec::new()
            }
        },
    }
}

/// Document after pasting the pieces `ps` at column `col` of line `idx`: a
/// single piece goes into the line; several split the line there, the first
/// piece ending its first part, the last one starting its second part, the
/// pieces between becoming lines of their own.
pub open spec fn pasted_doc(d: Seq<Seq<char>>, idx: int, col: int, ps: Seq<Seq<char>>) -> Seq<Seq<char>> {
    let l = d[idx];
    if ps.len() == 1 {
        d.update(idx, l.take(col) + ps[0] + l.skip(col))
    } else {
        d.take(idx) + seq![l.take(col) + ps[0]] + ps.subrange(1, ps.len() - 1) + seq![ps.last() + l.skip(col)] + d.skip(idx + 1)
    }
}

/// `es` inserts the characters `p` at columns `col..` of line `line`, in
/// order, one edit per character.
pub open spec fn inserts_at(es: Seq<Edit>, line: int, col: int, p: Seq<char>) -> bool {
    &&& es.len() == p.len()
    &&& forall|k: int| 0 <= k < p.len() ==> (#[trigger] es[k] matches Edit::InsertChar { line: l, col: c, ch }
        && l == line && c == col + k && ch == p[k])
}

/// The edits recorded for pasting the pieces `ps` at column `col` of line
/// `idx` of `d`: one insertion per character for a single piece; otherwise
/// the split of the line, then one inserted line per further piece (the last
/// one carrying the rest of the split line).
pub open spec fn paste_edits(es: Seq<Edit>, d: Seq<Seq<char>>, idx: int, col: int, ps: Seq<Seq<char>>) -> bool {
    let l = d[idx];
    let n = ps.len();
    if n == 1 {
        inserts_at(es, idx, col, ps[0])
    } else {
        &&& es.len() == n
        &&& es[0] matches Edit::SplitLine { line, col: c, before, after }
            && line == idx && c == col && before@ == l.take(col) && after@ == l.skip(col)
        &&& forall|k: int| 1 <= k < n - 1 ==> (#[trigger] es[k] matches Edit::InsertLine { line, content }
            && line == idx + k && content@ == ps[k])
        &&& es[n - 1] matches Edit::InsertLine { line, content } && line == idx + n - 1 && content@ == ps[n - 1] + l.skip(col)
    }
}

/// Paste the single piece `p` at column `col` of line `idx`.
fn paste_in_line(lines: &mut Vec<String>, edits: &mut Vec<Edit>, idx: usize, col: usize, p: &str)
    requires
        idx < old(lines)@.len(),
        col <= old(lines)@[idx as int]@.len(),
        col + p@.len() <= usize::MAX,
    ensures
        doc(final(lines)@) == pasted_doc(doc(old(lines)@), idx as int, col as int, seq![p@]),
        final(edits)@.len() >= old(edits)@.len(),
        final(edits)@.take(old(edits)@.len() as int) == old(edits)@,
        inserts_at(final(edits)@.skip(old(edits)@.len() as int), idx as int, col as int, p@),
{
    let ghost d = doc(lines@);
    let ghost base = edits@;
    let np = p.unicode_len();
    let mut i: usize = 0;
    while i < np
        invariant
            i <= np,
            np == p@.len(),
            col + p@.len() <= usize::MAX,
            edits@.len() == base.len() + i,
            edits@.take(base.len() as int) == base,
            forall|k: int| 0 <= k < i ==> (#[trigger] edits@[base.len() + k] matches Edit::InsertChar { line: l, col: c, ch }
                && l == idx && c == col + k && ch == p@[k]),
        decreases np - i,
    {
        let ghost before = edits@;
        let c = p.get_char(i);
        let e = Edit::InsertChar { line: idx, col: col + i, ch: c };
        edits.push(e);
        proof {
            assert(edits@.take(base.len() as int) =~= before.take(base.len() as int));
            assert forall|k: int| 0 <= k < i + 1 implies (#[trigger] edits@[base.len() + k] matches Edit::InsertChar { line: l, col: c, ch }
                && l == idx && c == col + k && ch == p@[k]) by {
                if k < i {
                    assert(edits@[base.len() + k] == before[base.len() + k]);
                }
            }
        }
        i = i + 1;
    }
    proof {
        let es = edits@.skip(base.len() as int);
        assert forall|k: int| 0 <= k < p@.len() implies (#[trigger] es[k] matches Edit::InsertChar { line: l, col: c, ch }
            && l == idx && c == col + k && ch == p@[k]) by {
            assert(es[k] == edits@[base.len() + k]);
        }
    }
    let l = lines[idx].as_str();
    let n = l.unicode_len();
    let head = substring(l, 0, col);
    let tail = substring(l, col, n);
    let a = concat_str(head.as_str(), p);
    let joined = concat_str(a.as_str(), tail.as_str());
    lines.set(idx, joined);
    proof {
        assert(d[idx as int] == old(lines)@[idx as int]@);
        assert(doc(lines@) =~= pasted_doc(d, idx as int, col as int, seq![p@]));
    }
}

/// Paste the pieces `ps` (at least two) at column `col` of line `idx`.
fn paste_lines_at(lines: &mut Vec<String>, edits: &mut Vec<Edit>, idx: usize, col: usize, ps: &Vec<String>)
    requires
        idx < old(lines)@.len(),
        col <= old(lines)@[idx as int]@.len(),
        ps@.len() >= 2,
        old(lines)@.len() + ps@.len() <= usize::MAX,
    ensures
        doc(final(lines)@) == pasted_doc(doc(old(lines)@), idx as int, col as int, doc(ps@)),
        final(edits)@.len() >= old(edits)@.len(),
        final(edits)@.take(old(edits)@.len() as int) == old(edits)@,
        paste_edits(final(edits)@.skip(old(edits)@.len() as int), doc(old(lines)@), idx as int, col as int, doc(ps@)),
{
    let ghost d = doc(lines@);
    let ghost base = edits@;
    let ghost pd = doc(ps@);
    let n = ps.len();
    let l = lines[idx].as_str();
    let len = l.unicode_len();
    let before = substring(l, 0, col);
    let after = substring(l, col, len);
    let first = concat_str(before.as_str(), ps[0].as_str());
    edits.push(Edit::SplitLine { line: idx, col, before, after: after.clone() });
    lines.set(idx, first);
    proof {
        assert(d[idx as int] == old(lines)@[idx as int]@);
        assert(pd[0] == ps@[0]@);
    }
    let mut k: usize = 1;
    while k < n - 1
        invariant
            1 <= k <= n - 1,
            n == ps@.len(),
            pd == doc(ps@),
            idx < d.len(),
            d.len() + n <= usize::MAX,
            after@ == d[idx as int].skip(col as int),
            lines@.len() == d.len() + k - 1,
            doc(lines@) == d.take(idx as int) + seq![d[idx as int].take(col as int) + pd[0]] + pd.subrange(1, k as int) + d.skip(idx + 1),
            edits@.len() == base.len() + k,
            edits@.take(base.len() as int) == base,
            edits@[base.len() as int] matches Edit::SplitLine { line, col: c, before, after }
                && line == idx && c == col && before@ == d[idx as int].take(col as int) && after@ == d[idx as int].skip(col as int),
            forall|j: int| 1 <= j < k ==> (#[trigger] edits@[base.len() + j] matches Edit::InsertLine { line, content }
                && line == idx + j && content@ == pd[j]),
        decreases n - k,
    {
        let ghost eb = edits@;
        let ghost db = doc(lines@);
        edits.push(Edit::InsertLine { line: idx + k, content: ps[k].clone() });
        lines.insert(idx + k, ps[k].clone());
        proof {
            assert(pd[k as int] == ps@[k as int]@);
            assert(edits@.take(base.len() as int) =~= eb.take(base.len() as int));
            assert(edits@[base.len() as int] == eb[base.len() as int]);
            assert forall|j: int| 1 <= j < k + 1 implies (#[trigger] edits@[base.len() + j] matches Edit::InsertLine { line, content }
                && line == idx + j && content@ == pd[j]) by {
                if j < k {
                    assert(edits@[base.len() + j] == eb[base.len() + j]);
                }
            }
            assert(doc(lines@) =~= db.insert(idx + k, pd[k as int]));
            assert(doc(lines@) =~= d.take(idx as int) + seq![d[idx as int].take(col as int) + pd[0]] + pd.subrange(1, k + 1) + d.skip(idx + 1));
        }
        k = k + 1;
    }
    let last = concat_str(ps[n - 1].as_str(), after.as_str());
    let ghost eb = edits@;
    let ghost db = doc(lines@);
    edits.push(Edit::InsertLine { line: idx + n - 1, content: last.clone() });
    lines.insert(idx + n - 1, last);
    proof {
        assert(pd[n - 1] == ps@[n - 1]@);
        assert(doc(lines@) =~= db.insert(idx + n - 1, pd[n - 1] + d[idx as int].skip(col as int)));
        assert(doc(lines@) =~= pasted_doc(d, idx as int, col as int, pd));
        let es = edits@.skip(base.len() as int);
        assert(edits@.take(base.len() as int) =~= base);
        assert(es[0] == edits@[base.len() as int]);
        assert forall|j: int| 1 <= j < n - 1 implies (#[trigger] es[j] matches Edit::InsertLine { line, content }
            && line == idx + j && content@ == pd[j]) by {
            assert(es[j] == eb[base.len() + j]);
        }
        assert(es[n - 1] == edits@[base.len() + n - 1]);
    }
}

/// The cursor (row, column, remembered column) after pasting the pieces `ps`
/// at line `idx`, the cursor having been at row and columns `c` (see
/// `paste_cleared_cursor`): a single piece moves the cursor past it; several
/// move it to the last pasted line, after the last piece (clamped to the line
/// the cursor then points at).
pub open spec fn paste_cursor(old: FileViewerState, c: (int, int, int), idx: int, d2: Seq<Seq<char>>, ps: Seq<Seq<char>>) -> (int, int, int) {
    if ps.len() == 1 {
        (c.0, c.1 + ps[0].len(), c.1 + ps[0].len())
    } else {
        let cl = sat_sub(idx + ps.len() - 1, old.top_line as int);
        let abs = match old.saved_absolute_cursor { Some(l) => l as int, None => old.top_line + cl };
        if 0 <= abs < d2.len() {
            let cc = min_int(ps.last().len() as int, d2[abs].len() as int);
            (cl, cc, cc)
        } else {
            (cl, c.1, c.2)
        }
    }
}

/// Lines are short enough that one, doubled, plus `extra` characters fits
/// in `usize`.
pub open spec fn lines_room(ol: Seq<String>, extra: int) -> bool {
    forall|i: int| 0 <= i < ol.len() ==> 2 * #[trigger] ol[i]@.len() + extra <= usize::MAX
}

/// After removing a selection no line is longer than two lines were.
proof fn lemma_cleared_line_len(old: FileViewerState, ol: Seq<String>, extra: int, i: int)
    requires
        lines_room(ol, extra),
        0 <= i < paste_cleared_doc(old, doc(ol)).len(),
    ensures
        paste_cleared_doc(old, doc(ol))[i].len() + extra <= usize::MAX,
{
    let d = doc(ol);
    let d1 = paste_cleared_doc(old, d);
    match paste_sel(old, d) {
        Some((s, e)) => {
            if removal_happens(d, s, e, false) {
                if s.0 == e.0 {
                    assert(ol[s.0 as int]@ == d[s.0 as int]);
                    if i != s.0 {
                        assert(ol[i]@ == d[i]);
                    }
                } else {
                    assert(ol[s.0 as int]@ == d[s.0 as int]);
                    assert(ol[e.0 as int]@ == d[e.0 as int]);
                    if i < s.0 {
                        assert(d1[i] == d[i]);
                        assert(ol[i]@ == d[i]);
                    } else if i > s.0 {
                        assert(d1[i] == d[i + e.0 - s.0]);
                        assert(ol[i + e.0 - s.0]@ == d[i + e.0 - s.0]);
                    }
                }
            } else {
                assert(ol[i]@ == d[i]);
            }
        },
        None => {
            assert(ol[i]@ == d[i]);
        },
    }
}

/// Record the paste as one undo step and set the cursor: see `paste_result`.
fn finish_paste(state: &mut FileViewerState, lines: &Vec<String>, edits: Vec<Edit>, cl: usize, col: usize, desired: usize)
    requires
        old(state).saved_absolute_cursor is None ==> old(state).top_line + cl <= usize::MAX,
    ensures
        ({
            let abs = match old(state).saved_absolute_cursor { Some(l) => l as int, None => old(state).top_line + cl };
            &&& same_outside_editing(*final(state), *old(state))
            &&& composite_pushed(final(state).undo_history, old(state).undo_history, edits@, abs as usize, col, old(state).multi_cursors@)
            &&& final(state).undo_history.top_line == old(state).top_line
            &&& final(state).undo_history.cursor_line == abs
            &&& final(state).undo_history.cursor_col == col
            &&& final(state).undo_history.content@ == lines@
            &&& final(state).top_line == old(state).top_line
            &&& final(state).cursor_line == cl
            &&& final(state).cursor_col == col
            &&& final(state).desired_cursor_col == desired
            &&& final(state).modified
            &&& final(state).cursor_at_wrap_end == old(state).cursor_at_wrap_end
            &&& final(state).multi_cursors == old(state).multi_cursors
            &&& final(state).saved_absolute_cursor == old(state).saved_absolute_cursor
            &&& final(state).saved_scroll_state == old(state).saved_scroll_state
            &&& final(state).selection_start == old(state).selection_start
            &&& final(state).selection_end == old(state).selection_end
            &&& final(state).selection_anchor == old(state).selection_anchor
            &&& final(state).block_selection == old(state).block_selection
            &&& final(state).needs_redraw == old(state).needs_redraw
        }),
{
    let top = state.top_line;
    let abs = match state.saved_absolute_cursor {
        Some(l) => l,
        None => top + cl,
    };
    let ghost base = undoable(state.undo_history);
    let ghost es = edits@;
    let multi = copy_positions(&state.multi_cursors);
    state.undo_history.push_composite(edits, Some((abs, col, multi)));
    proof {
        if es.len() > 0 {
            assert(state.undo_history.edits@.take(base.len() as int) =~= base);
        }
    }
    state.cursor_line = cl;
    state.cursor_col = col;
    state.desired_cursor_col = desired;
    state.modified = true;
    state.undo_history.update_state(top, abs, col, copy_lines(lines));
}

/// Computes `paste_cursor` once the pieces `ps` went in at line `idx` (the
/// cursor still as the first step of pasting left it).
fn paste_cursor_values(state: &FileViewerState, lines: &Vec<String>, idx: usize, ps: &Vec<String>) -> (r: (usize, usize, usize))
    requires
        ps@.len() >= 1,
        idx + ps@.len() <= usize::MAX,
        state.cursor_col + ps@[0]@.len() <= usize::MAX,
    ensures
        ({
            let f = paste_cursor(*state, (state.cursor_line as int, state.cursor_col as int, state.desired_cursor_col as int), idx as int, doc(lines@), doc(ps@));
            r.0 == f.0 && r.1 == f.1 && r.2 == f.2
        }),
{
    let n = ps.len();
    if n == 1 {
        let c = state.cursor_col + ps[0].as_str().unicode_len();
        return (state.cursor_line, c, c);
    }
    let top = state.top_line;
    let target = idx + n - 1;
    let cl = if target >= top { target - top } else { 0 };
    let abs = match state.saved_absolute_cursor {
        Some(l) => l,
        None => top + cl,
    };
    if abs < lines.len() {
        let m = ps[n - 1].as_str().unicode_len();
        let len = lines[abs].as_str().unicode_len();
        let c = if m < len { m } else { len };
        (cl, c, c)
    } else {
        (cl, state.cursor_col, state.desired_cursor_col)
    }
}

/// The second step of pasting: the text's pieces `ps` go in at line `idx`
/// and column `s1.cursor_col`, the edits `es` (after the first step's edits
/// `es1`) form one undo step, and the cursor moves (see `paste_cursor`).
pub open spec fn paste_inserted(s1: FileViewerState, new: FileViewerState, l1: Seq<String>, nl: Seq<String>, es1: Seq<Edit>, t: Seq<char>, idx: int) -> bool {
    let d1 = doc(l1);
    let ps = paste_pieces(t);
    let d2 = pasted_doc(d1, idx, s1.cursor_col as int, ps);
    let f = paste_cursor(s1, (s1.cursor_line as int, s1.cursor_col as int, s1.desired_cursor_col as int), idx, d2, ps);
    let abs = match s1.saved_absolute_cursor { Some(l) => l as int, None => s1.top_line + f.0 };
    &&& doc(nl) == d2
    &&& exists|es: Seq<Edit>| es.len() >= es1.len() && #[trigger] es.take(es1.len() as int) == es1
        && paste_edits(es.skip(es1.len() as int), d1, idx, s1.cursor_col as int, ps)
        && composite_pushed(new.undo_history, s1.undo_history, es, abs as usize, f.1 as usize, s1.multi_cursors@)
    &&& new.undo_history.top_line == s1.top_line
    &&& new.undo_history.cursor_line == abs
    &&& new.undo_history.cursor_col == f.1
    &&& new.undo_history.content@ == nl
    &&& same_outside_editing(new, s1)
    &&& new.top_line == s1.top_line
    &&& new.cursor_line == f.0
    &&& new.cursor_col == f.1
    &&& new.desired_cursor_col == f.2
    &&& new.modified
    &&& new.cursor_at_wrap_end == s1.cursor_at_wrap_end
    &&& new.multi_cursors == s1.multi_cursors
    &&& new.saved_absolute_cursor == s1.saved_absolute_cursor
    &&& new.saved_scroll_state == s1.saved_scroll_state
    &&& new.selection_start == s1.selection_start
    &&& new.selection_end == s1.selection_end
    &&& new.selection_anchor == s1.selection_anchor
    &&& new.block_selection == s1.block_selection
    &&& new.needs_redraw == s1.needs_redraw
}

/// The second step of pasting (see `paste_inserted`).
fn paste_at_cursor(state: &mut FileViewerState, lines: &mut Vec<String>, edits: Vec<Edit>, idx: usize, text: &str)
    requires
        idx == old(state).spec_absolute_line(),
        idx < old(lines)@.len(),
        old(state).cursor_col <= old(lines)@[idx as int]@.len(),
        old(state).cursor_col + text@.len() <= usize::MAX,
        old(lines)@.len() + text@.len() + 1 <= usize::MAX,
    ensures
        paste_inserted(*old(state), *final(state), old(lines)@, final(lines)@, edits@, text@, idx as int),
{
    let ghost es1 = edits@;
    let ghost d1 = doc(lines@);
    let mut edits = edits;
    let pieces = split_paste(text);
    proof {
        lemma_paste_pieces_len(text@);
        assert(doc(pieces@)[0] == pieces@[0]@);
    }
    let col = state.cursor_col;
    if pieces.len() == 1 {
        paste_in_line(lines, &mut edits, idx, col, pieces[0].as_str());
        assert(seq![pieces@[0]@] =~= doc(pieces@));
    } else {
        paste_lines_at(lines, &mut edits, idx, col, &pieces);
    }
    let (cl, c2, dc) = paste_cursor_values(state, lines, idx, &pieces);
    let ghost es = edits@;
    finish_paste(state, lines, edits, cl, c2, dc);
    assert(es.take(es1.len() as int) == es1);
}

/// After the first step of pasting, a cursor on a line of the document is
/// within that line (given that it was when there was no selection to
/// remove).
proof fn lemma_paste_cursor_fits(old: FileViewerState, s1: FileViewerState, ol: Seq<String>, l1: Seq<String>, es1: Seq<Edit>)
    requires
        paste_cleared(old, s1, ol, l1, es1),
        (paste_sel(old, doc(ol)) is None && 0 <= old.spec_absolute_line() < ol.len())
            ==> old.cursor_col <= ol[old.spec_absolute_line()]@.len(),
    ensures
        0 <= s1.spec_absolute_line() < l1.len() ==> s1.cursor_col <= l1[s1.spec_absolute_line()]@.len(),
{
    let d = doc(ol);
    let d1 = doc(l1);
    let abs = s1.spec_absolute_line();
    if 0 <= abs < l1.len() {
        assert(d1[abs] == l1[abs]@);
        match paste_sel(old, d) {
            Some((s, e)) => {}
            None => {
                assert(d[abs] == ol[abs]@);
            }
        }
    }
}

/// What pasting the text `t` does: first the selection is removed
/// (`paste_cleared`), then, when the cursor is on a line of the document,
/// the text goes in there (`paste_inserted`) and `pasted` is set.
pub open spec fn paste_result(old: FileViewerState, new: FileViewerState, ol: Seq<String>, nl: Seq<String>, t: Seq<char>, pasted: bool) -> bool {
    exists|s1: FileViewerState, l1: Seq<String>, es1: Seq<Edit>| #[trigger] paste_cleared(old, s1, ol, l1, es1) && if 0 <= s1.spec_absolute_line() < l1.len() {
        pasted && paste_inserted(s1, new, l1, nl, es1, t, s1.spec_absolute_line())
    } else {
        !pasted && new == s1 && nl == l1
    }
}

/// Paste `text` (what the clipboard held; the caller reads the clipboard) at
/// the cursor.  A selection is first removed as a line-wise selection, the
/// cursor going to its start.  The text is split into lines (see
/// `paste_pieces`): a single line goes into the cursor's line; several split
/// the cursor's line around them.  The removal and the paste form one undo
/// step.  Returns `false` when the text is empty (nothing changes) or when
/// the cursor's line is past the document (the selection is still removed
/// then).  See `paste_result`.
pub fn handle_paste(state: &mut FileViewerState, lines: &mut Vec<String>, text: &str) -> (pasted: bool)
    requires
        old(state).top_line + old(state).cursor_line <= usize::MAX,
        old(lines)@.len() + text@.len() + 1 <= usize::MAX,
        lines_room(old(lines)@, text@.len() as int),
        (paste_sel(*old(state), doc(old(lines)@)) is None && 0 <= old(state).spec_absolute_line() < old(lines)@.len())
            ==> old(state).cursor_col <= old(lines)@[old(state).spec_absolute_line()]@.len(),
    ensures
        text@.len() == 0 ==> !pasted && *final(state) == *old(state) && final(lines)@ == old(lines)@,
        text@.len() > 0 ==> paste_result(*old(state), *final(state), old(lines)@, final(lines)@, text@, pasted),
{
    if text.unicode_len() == 0 {
        return false;
    }
    let ghost ol = lines@;
    let ghost d = doc(lines@);
    let edits = paste_remove_selection(state, lines);
    let ghost es1 = edits@;
    let ghost s1 = *state;
    let ghost l1 = lines@;
    let idx = state.absolute_line();
    if idx >= lines.len() {
        assert(paste_cleared(*old(state), s1, ol, l1, es1));
        return false;
    }
    proof {
        lemma_cleared_line_len(*old(state), ol, text@.len() as int, idx as int);
        lemma_paste_cursor_fits(*old(state), s1, ol, l1, es1);
    }
    paste_at_cursor(state, lines, edits, idx, text);
    assert(paste_cleared(*old(state), s1, ol, l1, es1));
    true
}

// ---------------------------------------------------------------------------
// Checks for callers
// ---------------------------------------------------------------------------

/// Whether the selection from `start` to `end` (document order) can be cut
/// out (see `selection_extractable`).
pub fn selection_extractable_check(lines: &[String], start: Position, end: Position) -> (b: bool)
    ensures
        b == selection_extractable(doc(lines@), start, end),
{
    if start.0 >= lines.len() {
        return true;
    }
    assert(doc(lines@)[start.0 as int] == lines@[start.0 as int]@);
    let n = lines[start.0].as_str().unicode_len();
    if start.0 == end.0 {
        start.1 <= (if end.1 < n { end.1 } else { n })
    } else {
        start.1 <= n
    }
}

/// Whether pasting `text` keeps every count within `usize` and the cursor
/// within its line (what `handle_paste` asks of its caller).
pub fn paste_allowed(state: &FileViewerState, lines: &[String], text: &str) -> (b: bool)
    ensures
        b == ({
            &&& state.top_line + state.cursor_line <= usize::MAX
            &&& lines@.len() + text@.len() + 1 <= usize::MAX
            &&& lines_room(lines@, text@.len() as int)
            &&& (paste_sel(*state, doc(lines@)) is None && 0 <= state.spec_absolute_line() < lines@.len())
                ==> state.cursor_col <= lines@[state.spec_absolute_line()]@.len()
        }),
{
    if state.top_line > usize::MAX - state.cursor_line {
        return false;
    }
    let t = text.unicode_len();
    if t > usize::MAX - 1 || lines.len() > usize::MAX - 1 - t {
        return false;
    }
    let mut i: usize = 0;
    while i < lines.len()
        invariant
            i <= lines@.len(),
            t == text@.len(),
            t < usize::MAX,
            forall|k: int| 0 <= k < i ==> 2 * #[trigger] lines@[k]@.len() + t <= usize::MAX,
        decreases lines@.len() - i,
    {
        let n = lines[i].as_str().unicode_len();
        let half = (usize::MAX - t) / 2;
        if n > half {
            assert(2 * lines@[i as int]@.len() + t > usize::MAX) by (nonlinear_arith)
                requires
                    n == lines@[i as int]@.len(),
                    n > half,
                    half == (usize::MAX - t) / 2,
                    t < usize::MAX,
            ;
            return false;
        }
        assert(2 * n + t <= usize::MAX) by (nonlinear_arith)
            requires
                n <= half,
                half == (usize::MAX - t) / 2,
                t < usize::MAX,
        ;
        i = i + 1;
    }
    let abs = state.absolute_line();
    let sel_inside = match state.selection_range() {
        Some((s, e)) => s.0 < lines.len() && e.0 < lines.len(),
        None => false,
    };
    assert(sel_inside == (paste_sel(*state, doc(lines@)) is Some));
    if !sel_inside && abs < lines.len() {
        state.cursor_col <= lines[abs].as_str().unicode_len()
    } else {
        true
    }
}

} // verus!

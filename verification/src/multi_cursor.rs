//! Editing at several cursors at once: typing, Backspace and Delete at every
//! cursor, and turning a zero-width block selection into cursors.
use vstd::prelude::*;
use crate::editor_state::{FileViewerState, Position, pos_lt, same_outside_editing, sorted_unique};
use crate::editing::{copy_lines, copy_positions, doc, push_edits};
use crate::selection::{composite_pushed, concat_pieces};
use crate::text::{insert_char_at, remove_char_at};
use crate::undo::{CursorSnapshot, Edit, UndoHistory, undoable};

verus! {

// ---------------------------------------------------------------------------
// Lines as pieces
// ---------------------------------------------------------------------------

/// Splitting the pieces at `mid`.
proof fn lemma_concat_split<A>(f: spec_fn(int) -> Seq<A>, lo: int, mid: int, hi: int)
    requires
        lo <= mid <= hi,
    ensures
        concat_pieces(f, lo, hi) == concat_pieces(f, lo, mid) + concat_pieces(f, mid, hi),
    decreases hi - mid,
{
    if hi == mid {
        assert(concat_pieces(f, lo, mid) + concat_pieces(f, mid, hi) =~= concat_pieces(f, lo, mid));
    } else {
        lemma_concat_split(f, lo, mid, hi - 1);
        assert(concat_pieces(f, lo, hi) =~= concat_pieces(f, lo, mid) + concat_pieces(f, mid, hi));
    }
}

/// Equal pieces give equal concatenations.
proof fn lemma_concat_ext<A>(f: spec_fn(int) -> Seq<A>, g: spec_fn(int) -> Seq<A>, lo: int, hi: int)
    requires
        forall|j: int| lo <= j < hi ==> #[trigger] f(j) == g(j),
    ensures
        concat_pieces(f, lo, hi) == concat_pieces(g, lo, hi),
    decreases hi - lo,
{
    if hi > lo {
        lemma_concat_ext(f, g, lo, hi - 1);
    }
}

/// Pieces that are single characters of `l` give that stretch of `l`.
proof fn lemma_concat_chars(f: spec_fn(int) -> Seq<char>, l: Seq<char>, lo: int, hi: int)
    requires
        0 <= lo <= hi <= l.len(),
        forall|j: int| lo <= j < hi ==> #[trigger] f(j) == seq![l[j]],
    ensures
        concat_pieces(f, lo, hi) == l.subrange(lo, hi),
    decreases hi - lo,
{
    if hi > lo {
        lemma_concat_chars(f, l, lo, hi - 1);
        assert(f(hi - 1) == seq![l[hi - 1]]);
        assert(l.subrange(lo, hi - 1) + seq![l[hi - 1]] =~= l.subrange(lo, hi));
    }
}

// ---------------------------------------------------------------------------
// Typing at every cursor
// ---------------------------------------------------------------------------

/// The cursors: the main one and the extra ones.
pub open spec fn cursor_set(s: FileViewerState) -> Set<Position> {
    Set::new(|p: Position| p == s.spec_current_position() || s.multi_cursors@.contains(p))
}

/// Piece `j` of line `l` with `c` typed before each column of `cols`.
pub open spec fn insert_piece(l: Seq<char>, cols: Set<int>, c: char, j: int) -> Seq<char> {
    (if cols.contains(j) { seq![c] } else { Seq::empty() }) + (if j < l.len() { seq![l[j]] } else { Seq::empty() })
}

/// Line `l` with `c` inserted before each column in `cols` (the column equal
/// to the length inserting at the end).
pub open spec fn with_inserted(l: Seq<char>, cols: Set<int>, c: char) -> Seq<char> {
    concat_pieces(|j: int| insert_piece(l, cols, c, j), 0, l.len() as int + 1)
}

/// A cursor position where typing applies: on a line of the document, at
/// most at its end.
pub open spec fn insertable(d: Seq<Seq<char>>, p: Position) -> bool {
    p.0 < d.len() && p.1 <= d[p.0 as int].len()
}

/// Columns of line `l` where a cursor of `cs` types.
pub open spec fn insert_cols(cs: Set<Position>, d: Seq<Seq<char>>, l: int) -> Set<int> {
    Set::new(|col: int| exists|p: Position| #[trigger] cs.contains(p) && insertable(d, p) && p.0 == l && p.1 == col)
}

/// The position an insertion or deletion of one character applies at.
pub open spec fn edit_pos(e: Edit) -> Position {
    match e {
        Edit::InsertChar { line, col, .. } => (line, col),
        Edit::DeleteChar { line, col, .. } => (line, col),
        _ => (0, 0),
    }
}

/// `es` types `c` at each cursor of `cs` where typing applies, one insertion
/// per cursor, from the last position in the document to the first.
pub open spec fn multi_inserts(es: Seq<Edit>, cs: Set<Position>, d: Seq<Seq<char>>, c: char) -> bool {
    &&& forall|k: int| 0 <= k < es.len() ==> (#[trigger] es[k] matches Edit::InsertChar { line, col, ch }
        && ch == c && cs.contains((line, col)) && insertable(d, (line, col)))
    &&& forall|a: int, b: int| 0 <= a < b < es.len() ==> pos_lt(edit_pos(#[trigger] es[b]), edit_pos(#[trigger] es[a]))
    &&& forall|p: Position| cs.contains(p) && insertable(d, p) ==> exists|k: int| 0 <= k < es.len() && edit_pos(#[trigger] es[k]) == p
}

/// Typing at a column before all the columns typed at already.
proof fn lemma_insert_step(l: Seq<char>, s: Set<int>, col: int, c: char)
    requires
        0 <= col <= l.len(),
        forall|x: int| s.contains(x) ==> col < x,
    ensures
        with_inserted(l, s, c).insert(col, c) == with_inserted(l, s.insert(col), c),
{
    let n = l.len() as int;
    let f = |j: int| insert_piece(l, s, c, j);
    let g = |j: int| insert_piece(l, s.insert(col), c, j);
    lemma_concat_split(f, 0, col, n + 1);
    lemma_concat_split(f, col, col + 1, n + 1);
    lemma_concat_split(g, 0, col, n + 1);
    lemma_concat_split(g, col, col + 1, n + 1);
    assert forall|j: int| 0 <= j < col implies #[trigger] f(j) == seq![l[j]] by {
        assert(!s.contains(j));
        assert(f(j) =~= seq![l[j]]);
    }
    assert forall|j: int| 0 <= j < col implies #[trigger] g(j) == seq![l[j]] by {
        assert(!s.insert(col).contains(j));
        assert(g(j) =~= seq![l[j]]);
    }
    lemma_concat_chars(f, l, 0, col);
    lemma_concat_chars(g, l, 0, col);
    assert forall|j: int| col + 1 <= j < n + 1 implies #[trigger] f(j) == g(j) by {
        assert(s.insert(col).contains(j) == s.contains(j));
    }
    lemma_concat_ext(f, g, col + 1, n + 1);
    assert(!s.contains(col));
    assert(concat_pieces(f, col, col) =~= Seq::<char>::empty());
    assert(concat_pieces(g, col, col) =~= Seq::<char>::empty());
    assert(concat_pieces(f, col, col + 1) =~= f(col));
    assert(concat_pieces(g, col, col + 1) =~= g(col));
    assert(g(col) =~= seq![c] + f(col));
    assert(l.subrange(0, col).len() == col);
    assert(with_inserted(l, s, c).insert(col, c) =~= with_inserted(l, s.insert(col), c));
}

/// Typing nowhere leaves the line as it is.
proof fn lemma_inserted_none(l: Seq<char>, c: char)
    ensures
        with_inserted(l, Set::empty(), c) == l,
{
    let n = l.len() as int;
    let f = |j: int| insert_piece(l, Set::empty(), c, j);
    assert forall|j: int| 0 <= j < n implies #[trigger] f(j) == seq![l[j]] by {
        assert(f(j) =~= seq![l[j]]);
    }
    lemma_concat_chars(f, l, 0, n);
    assert(f(n) =~= Seq::<char>::empty());
    assert(with_inserted(l, Set::empty(), c) =~= l);
}

/// Columns of line `l` typed at by the positions `ps[i..]`.
pub open spec fn done_cols(ps: Seq<Position>, i: int, d: Seq<Seq<char>>, l: int) -> Set<int> {
    Set::new(|col: int| exists|k: int| i <= k < ps.len() && ps[k].0 == l && ps[k].1 == col && insertable(d, #[trigger] ps[k]))
}

/// After typing at the positions `ps[i..]`: each line of `cur` is the line
/// of `d` with `c` typed at those of its columns.
pub open spec fn docs_typed(cur: Seq<Seq<char>>, d: Seq<Seq<char>>, ps: Seq<Position>, i: int, c: char) -> bool {
    &&& cur.len() == d.len()
    &&& forall|l: int| 0 <= l < d.len() ==> #[trigger] cur[l] == with_inserted(d[l], done_cols(ps, i, d, l), c)
    &&& forall|l: int| 0 <= l < d.len() ==> #[trigger] cur[l].len() >= d[l].len()
}

/// After typing at the positions `ps[i..]`: `es` holds one insertion per
/// position where typing applied, last position first.
pub open spec fn edits_typed(es: Seq<Edit>, d: Seq<Seq<char>>, ps: Seq<Position>, i: int, c: char) -> bool {
    &&& forall|k: int| 0 <= k < es.len() ==> (#[trigger] es[k] matches Edit::InsertChar { line, col, ch }
        && ch == c && exists|m: int| i <= m < ps.len() && ps[m] == (line, col) && insertable(d, (line, col)))
    &&& forall|a: int, b: int| 0 <= a < b < es.len() ==> pos_lt(edit_pos(#[trigger] es[b]), edit_pos(#[trigger] es[a]))
    &&& forall|m: int| i <= m < ps.len() && insertable(d, ps[m]) ==>
        exists|k: int| 0 <= k < es.len() && edit_pos(#[trigger] es[k]) == ps[m]
}

/// Typing at `ps[i]` keeps `docs_typed`.
proof fn lemma_docs_typed_step(cur: Seq<Seq<char>>, d: Seq<Seq<char>>, ps: Seq<Position>, i: int, c: char)
    requires
        sorted_unique(ps),
        0 <= i < ps.len(),
        docs_typed(cur, d, ps, i + 1, c),
        insertable(d, ps[i]),
    ensures
        docs_typed(cur.update(ps[i].0 as int, cur[ps[i].0 as int].insert(ps[i].1 as int, c)), d, ps, i, c),
{
    let (l, col) = ps[i];
    let new = cur.update(l as int, cur[l as int].insert(col as int, c));
    let s = done_cols(ps, i + 1, d, l as int);
    assert forall|x: int| s.contains(x) implies col < x by {
        let k = choose|k: int| i + 1 <= k < ps.len() && ps[k].0 == l && ps[k].1 == x && insertable(d, #[trigger] ps[k]);
        assert(pos_lt(ps[i], ps[k]));
    }
    lemma_insert_step(d[l as int], s, col as int, c);
    assert(done_cols(ps, i, d, l as int) =~= s.insert(col as int));
    assert forall|j: int| 0 <= j < d.len() implies #[trigger] new[j] == with_inserted(d[j], done_cols(ps, i, d, j), c) by {
        if j != l {
            assert(done_cols(ps, i, d, j) =~= done_cols(ps, i + 1, d, j));
        }
    }
    assert forall|j: int| 0 <= j < d.len() implies #[trigger] new[j].len() >= d[j].len() by {
        assert(cur[j].len() >= d[j].len());
    }
}

/// Skipping `ps[i]`, where typing does not apply, keeps `docs_typed`.
proof fn lemma_docs_typed_skip(cur: Seq<Seq<char>>, d: Seq<Seq<char>>, ps: Seq<Position>, i: int, c: char)
    requires
        0 <= i < ps.len(),
        docs_typed(cur, d, ps, i + 1, c),
        !insertable(d, ps[i]),
    ensures
        docs_typed(cur, d, ps, i, c),
{
    assert forall|j: int| 0 <= j < d.len() implies #[trigger] cur[j] == with_inserted(d[j], done_cols(ps, i, d, j), c) by {
        assert(done_cols(ps, i, d, j) =~= done_cols(ps, i + 1, d, j));
    }
}

/// Recording the insertion at `ps[i]` keeps `edits_typed`.
proof fn lemma_edits_typed_step(es: Seq<Edit>, e: Edit, d: Seq<Seq<char>>, ps: Seq<Position>, i: int, c: char)
    requires
        sorted_unique(ps),
        0 <= i < ps.len(),
        edits_typed(es, d, ps, i + 1, c),
        insertable(d, ps[i]),
        e == (Edit::InsertChar { line: ps[i].0, col: ps[i].1, ch: c }),
    ensures
        edits_typed(es.push(e), d, ps, i, c),
{
    let n = es.push(e);
    assert forall|k: int| 0 <= k < n.len() implies (#[trigger] n[k] matches Edit::InsertChar { line, col, ch }
        && ch == c && exists|m: int| i <= m < ps.len() && ps[m] == (line, col) && insertable(d, (line, col))) by {
        if k < es.len() {
            assert(n[k] == es[k]);
            if let Edit::InsertChar { line, col, ch } = es[k] {
                let m = choose|m: int| i + 1 <= m < ps.len() && ps[m] == (line, col) && insertable(d, (line, col));
                assert(i <= m);
            }
        } else {
            assert(n[k] == e);
            assert(ps[i] == (ps[i].0, ps[i].1));
        }
    }
    assert forall|a: int, b: int| 0 <= a < b < n.len() implies pos_lt(edit_pos(#[trigger] n[b]), edit_pos(#[trigger] n[a])) by {
        assert(n[a] == es[a]);
        if b < es.len() {
            assert(n[b] == es[b]);
        } else {
            assert(n[b] == e);
            if let Edit::InsertChar { line, col, ch } = es[a] {
                let m = choose|m: int| i + 1 <= m < ps.len() && ps[m] == (line, col) && insertable(d, (line, col));
                assert(pos_lt(ps[i], ps[m]));
            }
        }
    }
    assert forall|m: int| i <= m < ps.len() && insertable(d, ps[m]) implies
        exists|k: int| 0 <= k < n.len() && edit_pos(#[trigger] n[k]) == ps[m] by {
        if m == i {
            assert(edit_pos(n[es.len() as int]) == ps[m]);
        } else {
            let k = choose|k: int| 0 <= k < es.len() && edit_pos(#[trigger] es[k]) == ps[m];
            assert(n[k] == es[k]);
        }
    }
}

/// Skipping `ps[i]`, where typing does not apply, keeps `edits_typed`.
proof fn lemma_edits_typed_skip(es: Seq<Edit>, d: Seq<Seq<char>>, ps: Seq<Position>, i: int, c: char)
    requires
        0 <= i < ps.len(),
        edits_typed(es, d, ps, i + 1, c),
        !insertable(d, ps[i]),
    ensures
        edits_typed(es, d, ps, i, c),
{
    assert forall|k: int| 0 <= k < es.len() implies (#[trigger] es[k] matches Edit::InsertChar { line, col, ch }
        && ch == c && exists|m: int| i <= m < ps.len() && ps[m] == (line, col) && insertable(d, (line, col))) by {
        if let Edit::InsertChar { line, col, ch } = es[k] {
            let m = choose|m: int| i + 1 <= m < ps.len() && ps[m] == (line, col) && insertable(d, (line, col));
            assert(i <= m);
        }
    }
    assert forall|m: int| i <= m < ps.len() && insertable(d, ps[m]) implies
        exists|k: int| 0 <= k < es.len() && edit_pos(#[trigger] es[k]) == ps[m] by {
        assert(m != i);
    }
}

/// Type `c` at the positions `ps` (in document order), last first, at each
/// one where typing applies; returns the insertions.
fn insert_at_positions(lines: &mut Vec<String>, ps: &Vec<Position>, c: char) -> (edits: Vec<Edit>)
    requires
        sorted_unique(ps@),
    ensures
        docs_typed(doc(final(lines)@), doc(old(lines)@), ps@, 0, c),
        edits_typed(edits@, doc(old(lines)@), ps@, 0, c),
        edits@.len() == 0 ==> final(lines)@ == old(lines)@,
{
    let ghost d = doc(lines@);
    let orig = copy_lines(lines);
    let mut edits: Vec<Edit> = Vec::new();
    let mut i = ps.len();
    proof {
        assert forall|l: int| 0 <= l < d.len() implies #[trigger] doc(lines@)[l] == with_inserted(d[l], done_cols(ps@, i as int, d, l), c) by {
            assert(done_cols(ps@, i as int, d, l) =~= Set::<int>::empty());
            lemma_inserted_none(d[l], c);
        }
    }
    while i > 0
        invariant
            i <= ps@.len(),
            sorted_unique(ps@),
            orig@ == old(lines)@,
            d == doc(old(lines)@),
            docs_typed(doc(lines@), d, ps@, i as int, c),
            edits_typed(edits@, d, ps@, i as int, c),
            edits@.len() == 0 ==> lines@ == old(lines)@,
        decreases i,
    {
        i = i - 1;
        let (l, col) = ps[i];
        if l < orig.len() && col <= orig[l].as_str().unicode_len() {
            let ghost before = edits@;
            let ghost cur = doc(lines@);
            assert(d[l as int] == orig@[l as int]@);
            assert(cur[l as int] == lines@[l as int]@);
            let new_line = insert_char_at(lines[l].as_str(), col, c);
            lines.set(l, new_line);
            let e = Edit::InsertChar { line: l, col, ch: c };
            edits.push(e);
            proof {
                lemma_docs_typed_step(cur, d, ps@, i as int, c);
                assert(doc(lines@) =~= cur.update(l as int, cur[l as int].insert(col as int, c)));
                lemma_edits_typed_step(before, e, d, ps@, i as int, c);
            }
        } else {
            proof {
                if l < d.len() {
                    assert(d[l as int] == orig@[l as int]@);
                }
                lemma_docs_typed_skip(doc(lines@), d, ps@, i as int, c);
                lemma_edits_typed_skip(edits@, d, ps@, i as int, c);
            }
        }
    }
    edits
}

/// The cursors moved `delta` columns (right for +1, left for -1 but not past
/// column 0).
pub open spec fn shifted(v: Seq<Position>, right: bool) -> Seq<Position> {
    v.map_values(|p: Position| (p.0, if right { (p.1 + 1) as usize } else if p.1 > 0 { (p.1 - 1) as usize } else { 0usize }))
}

/// Move every position one column right (`right`) or left (not past 0).
fn shift_cursors(v: &Vec<Position>, right: bool) -> (r: Vec<Position>)
    requires
        right ==> forall|k: int| 0 <= k < v@.len() ==> #[trigger] v@[k].1 < usize::MAX,
    ensures
        r@ == shifted(v@, right),
{
    let mut r: Vec<Position> = Vec::new();
    let mut i: usize = 0;
    while i < v.len()
        invariant
            i <= v@.len(),
            right ==> forall|k: int| 0 <= k < v@.len() ==> #[trigger] v@[k].1 < usize::MAX,
            r@ == shifted(v@.take(i as int), right),
        decreases v@.len() - i,
    {
        let (l, c) = v[i];
        let nc = if right { c + 1 } else if c > 0 { c - 1 } else { 0 };
        r.push((l, nc));
        i = i + 1;
        assert(r@ =~= shifted(v@.take(i as int), right));
    }
    assert(v@.take(v@.len() as int) =~= v@);
    r
}

/// What a multi-cursor edit leaves of the state: the edits `es` pushed as one
/// undo step that restores the cursor `(abs, col)` and the extra cursors
/// `multi`; the cursor column and the extra cursors as given; the history
/// snapshot at `abs`; everything else as it was.
pub open spec fn multi_edited(new: FileViewerState, old: FileViewerState, lines: Seq<String>, es: Seq<Edit>, abs: usize, col: usize, multi: Seq<Position>) -> bool {
    &&& same_outside_editing(new, old)
    &&& composite_pushed(new.undo_history, old.undo_history, es, abs, old.cursor_col, old.multi_cursors@)
    &&& new.undo_history.top_line == old.top_line
    &&& new.undo_history.cursor_line == abs
    &&& new.undo_history.cursor_col == col
    &&& new.undo_history.content@ == lines
    &&& new.top_line == old.top_line
    &&& new.cursor_line == old.cursor_line
    &&& new.cursor_col == col
    &&& new.multi_cursors@ == multi
    &&& new.desired_cursor_col == old.desired_cursor_col
    &&& new.cursor_at_wrap_end == old.cursor_at_wrap_end
    &&& new.selection_start == old.selection_start
    &&& new.selection_end == old.selection_end
    &&& new.selection_anchor == old.selection_anchor
    &&& new.block_selection == old.block_selection
    &&& new.needs_redraw == old.needs_redraw
    &&& new.modified == old.modified
    &&& new.saved_absolute_cursor == old.saved_absolute_cursor
    &&& new.saved_scroll_state == old.saved_scroll_state
}

/// Push `edits` as one undo step restoring `snap`, and take the snapshot
/// `(top, abs, col, lines)`.
fn record_composite(h: &mut UndoHistory, edits: Vec<Edit>, snap: CursorSnapshot, top: usize, abs: usize, col: usize, lines: &Vec<String>)
    ensures
        composite_pushed(*final(h), *old(h), edits@, snap.0, snap.1, snap.2@),
        final(h).top_line == top,
        final(h).cursor_line == abs,
        final(h).cursor_col == col,
        final(h).content@ == lines@,
{
    let ghost base = undoable(*h);
    let ghost es = edits@;
    h.push_composite(edits, Some(snap));
    proof {
        if es.len() > 0 {
            assert(h.edits@.take(base.len() as int) =~= base);
        }
    }
    h.update_state(top, abs, col, copy_lines(lines));
}

/// Record a multi-cursor edit: see `multi_edited`.
fn finish_multi_edit(state: &mut FileViewerState, lines: &Vec<String>, edits: Vec<Edit>, abs: usize, col: usize, multi: Vec<Position>)
    ensures
        multi_edited(*final(state), *old(state), lines@, edits@, abs, col, multi@),
{
    let top = state.top_line;
    let old_col = state.cursor_col;
    let snapshot = copy_positions(&state.multi_cursors);
    record_composite(&mut state.undo_history, edits, (abs, old_col, snapshot), top, abs, col, lines);
    state.cursor_col = col;
    state.multi_cursors = multi;
}

/// The cursors typed at are exactly the cursors where typing applies.
proof fn lemma_typed_at_cursors(ps: Seq<Position>, cs: Set<Position>, d: Seq<Seq<char>>, es: Seq<Edit>, c: char)
    requires
        forall|p: Position| #[trigger] ps.contains(p) <==> cs.contains(p),
        edits_typed(es, d, ps, 0, c),
    ensures
        forall|l: int| 0 <= l < d.len() ==> #[trigger] done_cols(ps, 0, d, l) == insert_cols(cs, d, l),
        es.len() > 0 <==> exists|p: Position| cs.contains(p) && #[trigger] insertable(d, p),
        multi_inserts(es, cs, d, c),
{
    assert forall|l: int| 0 <= l < d.len() implies #[trigger] done_cols(ps, 0, d, l) == insert_cols(cs, d, l) by {
        assert forall|col: int| done_cols(ps, 0, d, l).contains(col) implies insert_cols(cs, d, l).contains(col) by {
            let k = choose|k: int| 0 <= k < ps.len() && ps[k].0 == l && ps[k].1 == col && insertable(d, #[trigger] ps[k]);
            assert(ps.contains(ps[k]));
        }
        assert forall|col: int| insert_cols(cs, d, l).contains(col) implies done_cols(ps, 0, d, l).contains(col) by {
            let p = choose|p: Position| #[trigger] cs.contains(p) && insertable(d, p) && p.0 == l && p.1 == col;
            assert(ps.contains(p));
            let k = choose|k: int| 0 <= k < ps.len() && ps[k] == p;
            assert(insertable(d, ps[k]));
        }
        assert(done_cols(ps, 0, d, l) =~= insert_cols(cs, d, l));
    }
    assert forall|k: int| 0 <= k < es.len() implies (#[trigger] es[k] matches Edit::InsertChar { line, col, ch }
        && ch == c && cs.contains((line, col)) && insertable(d, (line, col))) by {
        if let Edit::InsertChar { line, col, ch } = es[k] {
            let m = choose|m: int| 0 <= m < ps.len() && ps[m] == (line, col) && insertable(d, (line, col));
            assert(ps.contains((line, col)));
        }
    }
    assert forall|p: Position| cs.contains(p) && insertable(d, p) implies exists|k: int| 0 <= k < es.len() && edit_pos(#[trigger] es[k]) == p by {
        assert(ps.contains(p));
        let m = choose|m: int| 0 <= m < ps.len() && ps[m] == p;
        assert(insertable(d, ps[m]));
    }
    if es.len() > 0 {
        if let Edit::InsertChar { line, col, ch } = es[0] {
            assert(cs.contains((line, col)) && insertable(d, (line, col)));
        }
    }
    if exists|p: Position| cs.contains(p) && #[trigger] insertable(d, p) {
        let p = choose|p: Position| cs.contains(p) && #[trigger] insertable(d, p);
        let k = choose|k: int| 0 <= k < es.len() && edit_pos(#[trigger] es[k]) == p;
    }
}

/// `n` and `nl` are `o` and `ol` after `insert_char_multi_cursor` with result `r`: `c` went in at every cursor that can take it, or nothing changed.
pub open spec fn multi_typed(o: FileViewerState, n: FileViewerState, ol: Seq<String>, nl: Seq<String>, c: char, r: bool) -> bool {
    let d = doc(ol);
    let cs = cursor_set(o);
    &&& r == exists|p: Position| cs.contains(p) && #[trigger] insertable(d, p)
    &&& r ==> {
        &&& doc(nl).len() == d.len()
        &&& forall|l: int| 0 <= l < d.len() ==> #[trigger] doc(nl)[l] == with_inserted(d[l], insert_cols(cs, d, l), c)
        &&& exists|es: Seq<Edit>| #[trigger] multi_inserts(es, cs, d, c)
            && multi_edited(n, o, nl, es, o.spec_absolute_line() as usize,
                (o.cursor_col + 1) as usize, shifted(o.multi_cursors@, true))
    }
    &&& !r ==> n == o && nl == ol
}

/// Type `c` at every cursor (the main one and the extra ones) where typing
/// applies: on a line of the document, at most at its end.  The insertions,
/// last position first, form one undo step; every cursor then moves one
/// column right.  Returns whether anything was typed; nothing changes when
/// not.
pub fn insert_char_multi_cursor(state: &mut FileViewerState, lines: &mut Vec<String>, c: char) -> (inserted: bool)
    requires
        old(state).top_line + old(state).cursor_line <= usize::MAX,
        old(state).cursor_col < usize::MAX,
        forall|k: int| 0 <= k < old(state).multi_cursors@.len() ==> #[trigger] old(state).multi_cursors@[k].1 < usize::MAX,
    ensures
        multi_typed(*old(state), *final(state), old(lines)@, final(lines)@, c, inserted),

{
    let ghost d = doc(lines@);
    let ghost cs = cursor_set(*state);
    let positions = state.all_cursor_positions();
    let abs = state.absolute_line();
    let edits = insert_at_positions(lines, &positions, c);
    proof {
        assert forall|p: Position| #[trigger] positions@.contains(p) <==> cs.contains(p) by {}
        lemma_typed_at_cursors(positions@, cs, d, edits@, c);
    }
    if edits.len() == 0 {
        return false;
    }
    let col = state.cursor_col + 1;
    let multi = shift_cursors(&state.multi_cursors, true);
    finish_multi_edit(state, lines, edits, abs, col, multi);
    true
}

// ---------------------------------------------------------------------------
// Backspace and Delete at every cursor
// ---------------------------------------------------------------------------

/// The character index that Backspace (`back`) or Delete removes at cursor
/// position `p`.
pub open spec fn removed_index(p: Position, back: bool) -> int {
    if back { p.1 - 1 } else { p.1 as int }
}

/// Whether Backspace (`back`) or Delete removes a character at cursor `p`:
/// on a line of the document, with a character before (Backspace) or at
/// (Delete) the cursor.
pub open spec fn removable(d: Seq<Seq<char>>, p: Position, back: bool) -> bool {
    &&& p.0 < d.len()
    &&& if back { 0 < p.1 <= d[p.0 as int].len() } else { p.1 < d[p.0 as int].len() }
}

/// Line `l` without the characters at the indices in `idx`.
pub open spec fn with_removed(l: Seq<char>, idx: Set<int>) -> Seq<char> {
    concat_pieces(|j: int| if idx.contains(j) { Seq::empty() } else { seq![l[j]] }, 0, l.len() as int)
}

/// Indices of line `l` that the cursors of `cs` remove.
pub open spec fn remove_idx(cs: Set<Position>, d: Seq<Seq<char>>, l: int, back: bool) -> Set<int> {
    Set::new(|j: int| exists|p: Position| #[trigger] cs.contains(p) && removable(d, p, back) && p.0 == l && removed_index(p, back) == j)
}

/// `es` removes one character at each cursor of `cs` where Backspace
/// (`back`) or Delete applies, from the last position in the document to the
/// first; each deletion records the removed character.
#[verifier::opaque]
pub open spec fn multi_removes(es: Seq<Edit>, cs: Set<Position>, d: Seq<Seq<char>>, back: bool) -> bool {
    &&& forall|k: int| 0 <= k < es.len() ==> (#[trigger] es[k] matches Edit::DeleteChar { line, col, ch }
        && exists|p: Position| cs.contains(p) && #[trigger] removable(d, p, back) && p.0 == line && removed_index(p, back) == col
        && ch == d[line as int][col as int])
    &&& forall|a: int, b: int| 0 <= a < b < es.len() ==> pos_lt(edit_pos(#[trigger] es[b]), edit_pos(#[trigger] es[a]))
    &&& forall|p: Position| cs.contains(p) && removable(d, p, back) ==> exists|k: int| 0 <= k < es.len()
        && edit_pos(#[trigger] es[k]) == (p.0, removed_index(p, back) as usize)
}

/// Removing an index before all the indices removed already.
proof fn lemma_remove_step(l: Seq<char>, s: Set<int>, j: int)
    requires
        0 <= j < l.len(),
        forall|x: int| s.contains(x) ==> j < x,
    ensures
        with_removed(l, s).len() > j,
        with_removed(l, s)[j] == l[j],
        with_removed(l, s).remove(j) == with_removed(l, s.insert(j)),
{
    let n = l.len() as int;
    let f = |k: int| if s.contains(k) { Seq::empty() } else { seq![l[k]] };
    let g = |k: int| if s.insert(j).contains(k) { Seq::empty() } else { seq![l[k]] };
    lemma_concat_split(f, 0, j, n);
    lemma_concat_split(f, j, j + 1, n);
    lemma_concat_split(g, 0, j, n);
    lemma_concat_split(g, j, j + 1, n);
    assert forall|k: int| 0 <= k < j implies #[trigger] f(k) == seq![l[k]] by {
        assert(!s.contains(k));
    }
    assert forall|k: int| 0 <= k < j implies #[trigger] g(k) == seq![l[k]] by {
        assert(!s.insert(j).contains(k));
    }
    lemma_concat_chars(f, l, 0, j);
    lemma_concat_chars(g, l, 0, j);
    assert forall|k: int| j + 1 <= k < n implies #[trigger] f(k) == g(k) by {
        assert(s.insert(j).contains(k) == s.contains(k));
    }
    lemma_concat_ext(f, g, j + 1, n);
    assert(!s.contains(j));
    assert(concat_pieces(f, j, j) =~= Seq::<char>::empty());
    assert(concat_pieces(g, j, j) =~= Seq::<char>::empty());
    assert(concat_pieces(f, j, j + 1) =~= seq![l[j]]);
    assert(concat_pieces(g, j, j + 1) =~= Seq::<char>::empty());
    assert(l.subrange(0, j).len() == j);
    assert(with_removed(l, s).remove(j) =~= with_removed(l, s.insert(j)));
}

/// Removing nothing leaves the line as it is.
proof fn lemma_removed_none(l: Seq<char>)
    ensures
        with_removed(l, Set::empty()) == l,
{
    let n = l.len() as int;
    let f = |k: int| if Set::<int>::empty().contains(k) { Seq::empty() } else { seq![l[k]] };
    assert forall|k: int| 0 <= k < n implies #[trigger] f(k) == seq![l[k]] by {}
    lemma_concat_chars(f, l, 0, n);
    assert(l.subrange(0, n) =~= l);
}

/// Indices of line `l` removed by the positions `ps[i..]`.
pub open spec fn done_idx(ps: Seq<Position>, i: int, d: Seq<Seq<char>>, l: int, back: bool) -> Set<int> {
    Set::new(|j: int| exists|k: int| i <= k < ps.len() && ps[k].0 == l && removable(d, #[trigger] ps[k], back) && removed_index(ps[k], back) == j)
}

/// After removing at the positions `ps[i..]`: each line of `cur` is the
/// line of `d` without those of its characters.
#[verifier::opaque]
pub open spec fn docs_removed(cur: Seq<Seq<char>>, d: Seq<Seq<char>>, ps: Seq<Position>, i: int, back: bool) -> bool {
    &&& cur.len() == d.len()
    &&& forall|l: int| 0 <= l < d.len() ==> #[trigger] cur[l] == with_removed(d[l], done_idx(ps, i, d, l, back))
}

/// After removing at the positions `ps[i..]`: `es` holds one deletion per
/// position where removal applied, last position first.
#[verifier::opaque]
pub open spec fn edits_removed(es: Seq<Edit>, d: Seq<Seq<char>>, ps: Seq<Position>, i: int, back: bool) -> bool {
    &&& forall|k: int| 0 <= k < es.len() ==> (#[trigger] es[k] matches Edit::DeleteChar { line, col, ch }
        && exists|m: int| i <= m < ps.len() && removable(d, #[trigger] ps[m], back) && ps[m].0 == line
            && removed_index(ps[m], back) == col && ch == d[line as int][col as int])
    &&& forall|a: int, b: int| 0 <= a < b < es.len() ==> pos_lt(edit_pos(#[trigger] es[b]), edit_pos(#[trigger] es[a]))
    &&& forall|m: int| i <= m < ps.len() && removable(d, ps[m], back) ==>
        exists|k: int| 0 <= k < es.len() && edit_pos(#[trigger] es[k]) == (ps[m].0, removed_index(ps[m], back) as usize)
}

/// Removing at `ps[i]` keeps `docs_removed`.
proof fn lemma_docs_removed_step(cur: Seq<Seq<char>>, d: Seq<Seq<char>>, ps: Seq<Position>, i: int, back: bool)
    requires
        sorted_unique(ps),
        0 <= i < ps.len(),
        docs_removed(cur, d, ps, i + 1, back),
        removable(d, ps[i], back),
    ensures
        cur[ps[i].0 as int].len() > removed_index(ps[i], back),
        cur[ps[i].0 as int][removed_index(ps[i], back)] == d[ps[i].0 as int][removed_index(ps[i], back)],
        docs_removed(cur.update(ps[i].0 as int, cur[ps[i].0 as int].remove(removed_index(ps[i], back))), d, ps, i, back),
{
    reveal(docs_removed);
    let l = ps[i].0;
    let j = removed_index(ps[i], back);
    let s = done_idx(ps, i + 1, d, l as int, back);
    assert forall|x: int| s.contains(x) implies j < x by {
        let k = choose|k: int| i + 1 <= k < ps.len() && ps[k].0 == l && removable(d, #[trigger] ps[k], back) && removed_index(ps[k], back) == x;
        assert(pos_lt(ps[i], ps[k]));
    }
    lemma_remove_step(d[l as int], s, j);
    assert(done_idx(ps, i, d, l as int, back) =~= s.insert(j));
    let new = cur.update(l as int, cur[l as int].remove(j));
    assert forall|m: int| 0 <= m < d.len() implies #[trigger] new[m] == with_removed(d[m], done_idx(ps, i, d, m, back)) by {
        if m != l {
            assert(done_idx(ps, i, d, m, back) =~= done_idx(ps, i + 1, d, m, back));
        }
    }
}

/// Skipping `ps[i]`, where removal does not apply, keeps `docs_removed`.
proof fn lemma_docs_removed_skip(cur: Seq<Seq<char>>, d: Seq<Seq<char>>, ps: Seq<Position>, i: int, back: bool)
    requires
        0 <= i < ps.len(),
        docs_removed(cur, d, ps, i + 1, back),
        !removable(d, ps[i], back),
    ensures
        docs_removed(cur, d, ps, i, back),
{
    reveal(docs_removed);
    assert forall|m: int| 0 <= m < d.len() implies #[trigger] cur[m] == with_removed(d[m], done_idx(ps, i, d, m, back)) by {
        assert(done_idx(ps, i, d, m, back) =~= done_idx(ps, i + 1, d, m, back));
    }
}

/// Recording the deletion at `ps[i]` keeps `edits_removed`.
proof fn lemma_edits_removed_step(es: Seq<Edit>, e: Edit, d: Seq<Seq<char>>, ps: Seq<Position>, i: int, back: bool)
    requires
        sorted_unique(ps),
        0 <= i < ps.len(),
        edits_removed(es, d, ps, i + 1, back),
        removable(d, ps[i], back),
        e matches Edit::DeleteChar { line, col, ch } && line == ps[i].0 && col == removed_index(ps[i], back)
            && ch == d[line as int][col as int],
    ensures
        edits_removed(es.push(e), d, ps, i, back),
{
    reveal(edits_removed);
    let n = es.push(e);
    assert forall|k: int| 0 <= k < n.len() implies (#[trigger] n[k] matches Edit::DeleteChar { line, col, ch }
        && exists|m: int| i <= m < ps.len() && removable(d, #[trigger] ps[m], back) && ps[m].0 == line
            && removed_index(ps[m], back) == col && ch == d[line as int][col as int]) by {
        if k < es.len() {
            assert(n[k] == es[k]);
            if let Edit::DeleteChar { line, col, ch } = es[k] {
                let m = choose|m: int| i + 1 <= m < ps.len() && removable(d, #[trigger] ps[m], back) && ps[m].0 == line
                    && removed_index(ps[m], back) == col && ch == d[line as int][col as int];
                assert(i <= m);
            }
        } else {
            assert(n[k] == e);
            assert(removable(d, ps[i], back));
        }
    }
    assert forall|a: int, b: int| 0 <= a < b < n.len() implies pos_lt(edit_pos(#[trigger] n[b]), edit_pos(#[trigger] n[a])) by {
        assert(n[a] == es[a]);
        if b < es.len() {
            assert(n[b] == es[b]);
        } else {
            assert(n[b] == e);
            if let Edit::DeleteChar { line, col, ch } = es[a] {
                let m = choose|m: int| i + 1 <= m < ps.len() && removable(d, #[trigger] ps[m], back) && ps[m].0 == line
                    && removed_index(ps[m], back) == col && ch == d[line as int][col as int];
                assert(pos_lt(ps[i], ps[m]));
            }
        }
    }
    assert forall|m: int| i <= m < ps.len() && removable(d, ps[m], back) implies
        exists|k: int| 0 <= k < n.len() && edit_pos(#[trigger] n[k]) == (ps[m].0, removed_index(ps[m], back) as usize) by {
        if m == i {
            assert(edit_pos(n[es.len() as int]) == (ps[m].0, removed_index(ps[m], back) as usize));
        } else {
            let k = choose|k: int| 0 <= k < es.len() && edit_pos(#[trigger] es[k]) == (ps[m].0, removed_index(ps[m], back) as usize);
            assert(n[k] == es[k]);
        }
    }
}

/// Skipping `ps[i]`, where removal does not apply, keeps `edits_removed`.
proof fn lemma_edits_removed_skip(es: Seq<Edit>, d: Seq<Seq<char>>, ps: Seq<Position>, i: int, back: bool)
    requires
        0 <= i < ps.len(),
        edits_removed(es, d, ps, i + 1, back),
        !removable(d, ps[i], back),
    ensures
        edits_removed(es, d, ps, i, back),
{
    reveal(edits_removed);
    assert forall|k: int| 0 <= k < es.len() implies (#[trigger] es[k] matches Edit::DeleteChar { line, col, ch }
        && exists|m: int| i <= m < ps.len() && removable(d, #[trigger] ps[m], back) && ps[m].0 == line
            && removed_index(ps[m], back) == col && ch == d[line as int][col as int]) by {
        if let Edit::DeleteChar { line, col, ch } = es[k] {
            let m = choose|m: int| i + 1 <= m < ps.len() && removable(d, #[trigger] ps[m], back) && ps[m].0 == line
                && removed_index(ps[m], back) == col && ch == d[line as int][col as int];
            assert(i <= m);
        }
    }
}

/// Remove a character at each of the positions `ps` (in document order),
/// last first, where Backspace (`back`) or Delete applies; returns the
/// deletions.
fn remove_at_positions(lines: &mut Vec<String>, ps: &Vec<Position>, back: bool) -> (edits: Vec<Edit>)
    requires
        sorted_unique(ps@),
    ensures
        docs_removed(doc(final(lines)@), doc(old(lines)@), ps@, 0, back),
        edits_removed(edits@, doc(old(lines)@), ps@, 0, back),
        edits@.len() == 0 ==> final(lines)@ == old(lines)@,
{
    let ghost d = doc(lines@);
    let orig = copy_lines(lines);
    let mut edits: Vec<Edit> = Vec::new();
    let mut i = ps.len();
    proof {
        reveal(docs_removed);
        reveal(edits_removed);
        assert forall|l: int| 0 <= l < d.len() implies #[trigger] doc(lines@)[l] == with_removed(d[l], done_idx(ps@, i as int, d, l, back)) by {
            assert(done_idx(ps@, i as int, d, l, back) =~= Set::<int>::empty());
            lemma_removed_none(d[l]);
        }
    }
    while i > 0
        invariant
            i <= ps@.len(),
            sorted_unique(ps@),
            orig@ == old(lines)@,
            d == doc(old(lines)@),
            lines@.len() == d.len(),
            docs_removed(doc(lines@), d, ps@, i as int, back),
            edits_removed(edits@, d, ps@, i as int, back),
            edits@.len() == 0 ==> lines@ == old(lines)@,
        decreases i,
    {
        i = i - 1;
        let (l, col) = ps[i];
        let ok = if l < orig.len() {
            let n = orig[l].as_str().unicode_len();
            if back { 0 < col && col <= n } else { col < n }
        } else {
            false
        };
        if ok {
            let ghost before = edits@;
            let ghost cur = doc(lines@);
            assert(d[l as int] == orig@[l as int]@);
            assert(cur[l as int] == lines@[l as int]@);
            let j = if back { col - 1 } else { col };
            proof {
                lemma_docs_removed_step(cur, d, ps@, i as int, back);
            }
            let ch = lines[l].as_str().get_char(j);
            let new_line = remove_char_at(lines[l].as_str(), j);
            lines.set(l, new_line);
            let e = Edit::DeleteChar { line: l, col: j, ch };
            edits.push(e);
            proof {
                assert(doc(lines@) =~= cur.update(l as int, cur[l as int].remove(j as int)));
                lemma_edits_removed_step(before, e, d, ps@, i as int, back);
            }
        } else {
            proof {
                if l < d.len() {
                    assert(d[l as int] == orig@[l as int]@);
                }
                lemma_docs_removed_skip(doc(lines@), d, ps@, i as int, back);
                lemma_edits_removed_skip(edits@, d, ps@, i as int, back);
            }
        }
    }
    edits
}

/// The indices removed per line are those of the cursors where removal
/// applies.
proof fn lemma_removed_idx(ps: Seq<Position>, cs: Set<Position>, d: Seq<Seq<char>>, back: bool)
    requires
        forall|p: Position| #[trigger] ps.contains(p) <==> cs.contains(p),
    ensures
        forall|l: int| 0 <= l < d.len() ==> #[trigger] done_idx(ps, 0, d, l, back) == remove_idx(cs, d, l, back),
{
    assert forall|l: int| 0 <= l < d.len() implies #[trigger] done_idx(ps, 0, d, l, back) == remove_idx(cs, d, l, back) by {
        assert forall|j: int| done_idx(ps, 0, d, l, back).contains(j) implies remove_idx(cs, d, l, back).contains(j) by {
            let k = choose|k: int| 0 <= k < ps.len() && ps[k].0 == l && removable(d, #[trigger] ps[k], back) && removed_index(ps[k], back) == j;
            assert(ps.contains(ps[k]));
        }
        assert forall|j: int| remove_idx(cs, d, l, back).contains(j) implies done_idx(ps, 0, d, l, back).contains(j) by {
            let p = choose|p: Position| #[trigger] cs.contains(p) && removable(d, p, back) && p.0 == l && removed_index(p, back) == j;
            assert(ps.contains(p));
            let k = choose|k: int| 0 <= k < ps.len() && ps[k] == p;
            assert(removable(d, ps[k], back));
        }
        assert(done_idx(ps, 0, d, l, back) =~= remove_idx(cs, d, l, back));
    }
}

/// The document after removing at every cursor, line by line.
proof fn lemma_removed_docs(cur: Seq<Seq<char>>, ps: Seq<Position>, cs: Set<Position>, d: Seq<Seq<char>>, back: bool)
    requires
        forall|p: Position| #[trigger] ps.contains(p) <==> cs.contains(p),
        docs_removed(cur, d, ps, 0, back),
    ensures
        cur.len() == d.len(),
        forall|l: int| 0 <= l < d.len() ==> #[trigger] cur[l] == with_removed(d[l], remove_idx(cs, d, l, back)),
{
    reveal(docs_removed);
    lemma_removed_idx(ps, cs, d, back);
    assert forall|l: int| 0 <= l < d.len() implies #[trigger] cur[l] == with_removed(d[l], remove_idx(cs, d, l, back)) by {
        assert(done_idx(ps, 0, d, l, back) == remove_idx(cs, d, l, back));
    }
}

/// The deletions are one per cursor where removal applies.
proof fn lemma_removed_edits(ps: Seq<Position>, cs: Set<Position>, d: Seq<Seq<char>>, es: Seq<Edit>, back: bool)
    requires
        forall|p: Position| #[trigger] ps.contains(p) <==> cs.contains(p),
        edits_removed(es, d, ps, 0, back),
    ensures
        multi_removes(es, cs, d, back),
{
    reveal(edits_removed);
    reveal(multi_removes);
    assert forall|k: int| 0 <= k < es.len() implies (#[trigger] es[k] matches Edit::DeleteChar { line, col, ch }
        && exists|p: Position| cs.contains(p) && #[trigger] removable(d, p, back) && p.0 == line && removed_index(p, back) == col
        && ch == d[line as int][col as int]) by {
        if let Edit::DeleteChar { line, col, ch } = es[k] {
            let m = choose|m: int| 0 <= m < ps.len() && removable(d, #[trigger] ps[m], back) && ps[m].0 == line
                && removed_index(ps[m], back) == col && ch == d[line as int][col as int];
            assert(ps.contains(ps[m]));
        }
    }
    assert forall|p: Position| cs.contains(p) && removable(d, p, back) implies exists|k: int| 0 <= k < es.len()
        && edit_pos(#[trigger] es[k]) == (p.0, removed_index(p, back) as usize) by {
        assert(ps.contains(p));
        let m = choose|m: int| 0 <= m < ps.len() && ps[m] == p;
        assert(removable(d, ps[m], back));
    }
}

/// Something is removed exactly when some cursor can remove.
proof fn lemma_removed_any(cs: Set<Position>, d: Seq<Seq<char>>, es: Seq<Edit>, back: bool)
    requires
        multi_removes(es, cs, d, back),
    ensures
        es.len() > 0 <==> exists|p: Position| cs.contains(p) && #[trigger] removable(d, p, back),
{
    reveal(multi_removes);
    if es.len() > 0 {
        if let Edit::DeleteChar { line, col, ch } = es[0] {
            let p = choose|p: Position| cs.contains(p) && #[trigger] removable(d, p, back) && p.0 == line && removed_index(p, back) == col
                && ch == d[line as int][col as int];
        }
    }
    if exists|p: Position| cs.contains(p) && #[trigger] removable(d, p, back) {
        let p = choose|p: Position| cs.contains(p) && #[trigger] removable(d, p, back);
        let k = choose|k: int| 0 <= k < es.len() && edit_pos(#[trigger] es[k]) == (p.0, removed_index(p, back) as usize);
    }
}

/// `n` and `nl` are `o` and `ol` after `delete_backward_multi_cursor` with result `r`: the character before every cursor that has one was deleted, or nothing changed.
pub open spec fn multi_backspace_done(o: FileViewerState, n: FileViewerState, ol: Seq<String>, nl: Seq<String>, r: bool) -> bool {
    let d = doc(ol);
    let cs = cursor_set(o);
    &&& r == exists|p: Position| cs.contains(p) && #[trigger] removable(d, p, true)
    &&& r ==> {
        &&& doc(nl).len() == d.len()
        &&& forall|l: int| 0 <= l < d.len() ==> #[trigger] doc(nl)[l] == with_removed(d[l], remove_idx(cs, d, l, true))
        &&& exists|es: Seq<Edit>| #[trigger] multi_removes(es, cs, d, true)
            && multi_edited(n, o, nl, es, o.spec_absolute_line() as usize,
                if o.cursor_col > 0 { (o.cursor_col - 1) as usize } else { 0 }, shifted(o.multi_cursors@, false))
    }
    &&& !r ==> n == o && nl == ol
}

/// Backspace at every cursor (the main one and the extra ones) that has a
/// character before it on a line of the document.  The deletions, last
/// position first, form one undo step; every cursor then moves one column
/// left (not past column 0).  Returns whether anything was deleted; nothing
/// changes when not.
pub fn delete_backward_multi_cursor(state: &mut FileViewerState, lines: &mut Vec<String>) -> (removed: bool)
    requires
        old(state).top_line + old(state).cursor_line <= usize::MAX,
    ensures
        multi_backspace_done(*old(state), *final(state), old(lines)@, final(lines)@, removed),

{
    let ghost d = doc(lines@);
    let ghost cs = cursor_set(*state);
    let positions = state.all_cursor_positions();
    let abs = state.absolute_line();
    let edits = remove_at_positions(lines, &positions, true);
    proof {
        assert forall|p: Position| #[trigger] positions@.contains(p) <==> cs.contains(p) by {}
        lemma_removed_docs(doc(lines@), positions@, cs, d, true);
        lemma_removed_edits(positions@, cs, d, edits@, true);
        lemma_removed_any(cs, d, edits@, true);
    }
    if edits.len() == 0 {
        return false;
    }
    let col = if state.cursor_col > 0 { state.cursor_col - 1 } else { 0 };
    let multi = shift_cursors(&state.multi_cursors, false);
    finish_multi_edit(state, lines, edits, abs, col, multi);
    true
}

/// `n` and `nl` are `o` and `ol` after `delete_forward_multi_cursor` with result `r`: the character at every cursor that has one was deleted, or nothing changed.
pub open spec fn multi_delete_done(o: FileViewerState, n: FileViewerState, ol: Seq<String>, nl: Seq<String>, r: bool) -> bool {
    let d = doc(ol);
    let cs = cursor_set(o);
    &&& r == exists|p: Position| cs.contains(p) && #[trigger] removable(d, p, false)
    &&& r ==> {
        &&& doc(nl).len() == d.len()
        &&& forall|l: int| 0 <= l < d.len() ==> #[trigger] doc(nl)[l] == with_removed(d[l], remove_idx(cs, d, l, false))
        &&& exists|es: Seq<Edit>| #[trigger] multi_removes(es, cs, d, false)
            && multi_edited(n, o, nl, es, o.spec_absolute_line() as usize,
                o.cursor_col, o.multi_cursors@)
    }
    &&& !r ==> n == o && nl == ol
}

/// Delete at every cursor (the main one and the extra ones) that has a
/// character at it on a line of the document.  The deletions, last position
/// first, form one undo step; the cursors stay.  Returns whether anything was
/// deleted; nothing changes when not.
pub fn delete_forward_multi_cursor(state: &mut FileViewerState, lines: &mut Vec<String>) -> (removed: bool)
    requires
        old(state).top_line + old(state).cursor_line <= usize::MAX,
    ensures
        multi_delete_done(*old(state), *final(state), old(lines)@, final(lines)@, removed),

{
    let ghost d = doc(lines@);
    let ghost cs = cursor_set(*state);
    let positions = state.all_cursor_positions();
    let abs = state.absolute_line();
    let edits = remove_at_positions(lines, &positions, false);
    proof {
        assert forall|p: Position| #[trigger] positions@.contains(p) <==> cs.contains(p) by {}
        lemma_removed_docs(doc(lines@), positions@, cs, d, false);
        lemma_removed_edits(positions@, cs, d, edits@, false);
        lemma_removed_any(cs, d, edits@, false);
    }
    if edits.len() == 0 {
        return false;
    }
    let col = state.cursor_col;
    let multi = copy_positions(&state.multi_cursors);
    finish_multi_edit(state, lines, edits, abs, col, multi);
    true
}

// ---------------------------------------------------------------------------
// Zero-width block selections
// ---------------------------------------------------------------------------

/// Extra cursors at column `col` on the lines after `first` up to `last`.
pub open spec fn column_cursors(first: int, last: int, col: usize) -> Seq<Position> {
    Seq::new(if last > first { (last - first) as nat } else { 0 }, |k: int| ((first + 1 + k) as usize, col))
}

/// `n` is `o` after `activate_multi_cursor_from_block` from `start` to
/// `end`: the cursor at `start`, an extra cursor at the start column of each
/// further line through `end`'s line, the selection dropped.
pub open spec fn block_turned_into_cursors(o: FileViewerState, n: FileViewerState, start: Position, end: Position) -> bool {
    &&& same_outside_editing(n, o)
    &&& n.undo_history == o.undo_history
    &&& n.top_line == o.top_line
    &&& n.cursor_line == if start.0 >= o.top_line { start.0 - o.top_line } else { 0 }
    &&& n.cursor_col == start.1
    &&& n.multi_cursors@ == column_cursors(start.0 as int, if end.0 > start.0 { end.0 as int } else { start.0 as int }, start.1)
    &&& n.selection_start is None && n.selection_end is None && n.selection_anchor is None
    &&& !n.block_selection
    &&& n.needs_redraw
    &&& n.desired_cursor_col == o.desired_cursor_col
    &&& n.cursor_at_wrap_end == o.cursor_at_wrap_end
    &&& n.modified == o.modified
    &&& n.saved_absolute_cursor == o.saved_absolute_cursor
    &&& n.saved_scroll_state == o.saved_scroll_state
}

/// Turn a block selection from `start` to `end` into cursors: the main
/// cursor at `start` (the view unchanged), one extra cursor at the same
/// column on each further line of the block; the selection is dropped.
pub fn activate_multi_cursor_from_block(state: &mut FileViewerState, start: Position, end: Position)
    ensures
        block_turned_into_cursors(*old(state), *final(state), start, end),

{
    let (start_line, start_col) = start;
    let end_line = if end.0 > start_line { end.0 } else { start_line };
    let top = state.top_line;
    let mut cursors: Vec<Position> = Vec::new();
    let mut l = start_line;
    while l < end_line
        invariant
            start_line <= l <= end_line,
            cursors@ == column_cursors(start_line as int, l as int, start_col),
        decreases end_line - l,
    {
        cursors.push((l + 1, start_col));
        l = l + 1;
        assert(cursors@ =~= column_cursors(start_line as int, l as int, start_col));
    }
    state.cursor_line = if start_line >= top { start_line - top } else { 0 };
    state.cursor_col = start_col;
    state.multi_cursors = cursors;
    state.selection_start = None;
    state.selection_end = None;
    state.selection_anchor = None;
    state.block_selection = false;
    state.needs_redraw = true;
}

/// Lines of a zero-width block selection over lines `sl..=el` at column
/// `col` that typing reaches: those of the document.
pub open spec fn block_lines(d: Seq<Seq<char>>, sl: int, el: int) -> int {
    if el + 1 < d.len() { el + 1 } else { d.len() as int }
}

/// `es` types `c` on each line `sl..hi` at column `col` (clamped to the
/// line), one insertion per line, top line first.
pub open spec fn block_inserts(es: Seq<Edit>, d: Seq<Seq<char>>, sl: int, hi: int, col: int, c: char) -> bool {
    &&& es.len() == if hi > sl { hi - sl } else { 0 }
    &&& forall|k: int| 0 <= k < es.len() ==> (#[trigger] es[k] matches Edit::InsertChar { line, col: at, ch }
        && line == sl + k && at == (if col < d[sl + k].len() { col } else { d[sl + k].len() as int }) && ch == c)
}

/// `d` with `c` typed on each line `sl..hi` at column `col` (clamped).
pub open spec fn block_typed(d: Seq<Seq<char>>, sl: int, hi: int, col: int, c: char) -> Seq<Seq<char>> {
    Seq::new(d.len(), |l: int| if sl <= l < hi {
        d[l].insert(if col < d[l].len() { col } else { d[l].len() as int }, c)
    } else {
        d[l]
    })
}

/// Type `c` on lines `sl..hi` at column `col` (clamped per line).
fn type_down_block(lines: &mut Vec<String>, sl: usize, hi: usize, col: usize, c: char) -> (edits: Vec<Edit>)
    requires
        hi <= old(lines)@.len(),
    ensures
        doc(final(lines)@) == block_typed(doc(old(lines)@), sl as int, hi as int, col as int, c),
        block_inserts(edits@, doc(old(lines)@), sl as int, hi as int, col as int, c),
{
    let ghost d = doc(lines@);
    let mut edits: Vec<Edit> = Vec::new();
    let mut l = sl;
    assert(doc(lines@) =~= block_typed(d, sl as int, sl as int, col as int, c));
    while l < hi
        invariant
            sl <= l,
            l <= hi || l == sl,
            hi <= d.len(),
            lines@.len() == d.len(),
            doc(lines@) == block_typed(d, sl as int, l as int, col as int, c),
            block_inserts(edits@, d, sl as int, l as int, col as int, c),
        decreases hi - l,
    {
        let ghost before = edits@;
        assert(doc(lines@)[l as int] == d[l as int]);
        assert(lines@[l as int]@ == d[l as int]);
        let n = lines[l].as_str().unicode_len();
        let at = if col < n { col } else { n };
        let ghost cur = doc(lines@);
        let new_line = insert_char_at(lines[l].as_str(), at, c);
        lines.set(l, new_line);
        let e = Edit::InsertChar { line: l, col: at, ch: c };
        edits.push(e);
        proof {
            assert(before.len() == l - sl);
            assert forall|k: int| 0 <= k < edits@.len() implies (#[trigger] edits@[k] matches Edit::InsertChar { line, col: at, ch }
                && line == sl + k && at == (if col < d[sl + k].len() { col as int } else { d[sl + k].len() as int }) && ch == c) by {
                if k < before.len() {
                    assert(edits@[k] == before[k]);
                } else {
                    assert(k == l - sl);
                    assert(edits@[k] == e);
                }
            }
            assert(doc(lines@) =~= cur.update(l as int, d[l as int].insert(at as int, c)));
        }
        l = l + 1;
        assert(doc(lines@) =~= block_typed(d, sl as int, l as int, col as int, c));
    }
    proof {
        if hi <= sl {
            assert(block_typed(d, sl as int, hi as int, col as int, c) =~= block_typed(d, sl as int, sl as int, col as int, c));
        }
    }
    edits
}

/// Typing with a zero-width block selection (its two ends in the same
/// column): `c` goes in at that column (clamped) on every line of the block
/// that exists, each insertion its own undo step, and the cursor and both
/// selection ends move one column right.  Returns `false`, changing nothing,
/// without a block selection, with one that is not zero-width, or when no
/// line of it exists.
pub fn insert_char_block(state: &mut FileViewerState, lines: &mut Vec<String>, c: char) -> (inserted: bool)
    requires
        old(state).top_line + old(state).cursor_line <= usize::MAX,
        old(state).spec_selection_range() matches Some((s, e)) ==> s.1 < usize::MAX && e.1 < usize::MAX,
    ensures
        ({
            let d = doc(old(lines)@);
            match old(state).spec_selection_range() {
                Some((s, e)) => {
                    let hi = block_lines(d, s.0 as int, e.0 as int);
                    let applies = old(state).block_selection && s.1 == e.1 && hi > s.0;
                    &&& inserted == applies
                    &&& applies ==> {
                        &&& doc(final(lines)@) == block_typed(d, s.0 as int, hi, s.1 as int, c)
                        &&& final(state).undo_history.edits@.len() == undoable(old(state).undo_history).len() + (hi - s.0)
                        &&& final(state).undo_history.edits@.take(undoable(old(state).undo_history).len() as int) == undoable(old(state).undo_history)
                        &&& block_inserts(final(state).undo_history.edits@.skip(undoable(old(state).undo_history).len() as int), d, s.0 as int, hi, s.1 as int, c)
                        &&& final(state).undo_history.current == final(state).undo_history.edits@.len()
                        &&& final(state).undo_history.modified
                        &&& final(state).undo_history.find_history == old(state).undo_history.find_history
                        &&& final(state).undo_history.top_line == old(state).top_line
                        &&& final(state).undo_history.cursor_line == old(state).spec_absolute_line()
                        &&& final(state).undo_history.cursor_col == s.1 + 1
                        &&& final(state).undo_history.content@ == final(lines)@
                        &&& final(state).cursor_col == s.1 + 1
                        &&& final(state).selection_start == Some((s.0, (s.1 + 1) as usize))
                        &&& final(state).selection_end == Some((e.0, (e.1 + 1) as usize))
                        &&& same_outside_editing(*final(state), *old(state))
                        &&& final(state).top_line == old(state).top_line
                        &&& final(state).cursor_line == old(state).cursor_line
                        &&& final(state).desired_cursor_col == old(state).desired_cursor_col
                        &&& final(state).cursor_at_wrap_end == old(state).cursor_at_wrap_end
                        &&& final(state).selection_anchor == old(state).selection_anchor
                        &&& final(state).block_selection == old(state).block_selection
                        &&& final(state).multi_cursors == old(state).multi_cursors
                        &&& final(state).needs_redraw == old(state).needs_redraw
                        &&& final(state).modified == old(state).modified
                        &&& final(state).saved_absolute_cursor == old(state).saved_absolute_cursor
                        &&& final(state).saved_scroll_state == old(state).saved_scroll_state
                    }
                    &&& !applies ==> *final(state) == *old(state) && final(lines)@ == old(lines)@
                },
                None => !inserted && *final(state) == *old(state) && final(lines)@ == old(lines)@,
            }
        }),
{
    if !state.block_selection {
        return false;
    }
    let range = state.selection_range();
    let (s, e) = match range {
        Some(r) => r,
        None => return false,
    };
    if s.1 != e.1 {
        return false;
    }
    let hi = if e.0 < lines.len() { e.0 + 1 } else { lines.len() };
    if hi <= s.0 {
        return false;
    }
    let abs = state.absolute_line();
    let edits = type_down_block(lines, s.0, hi, s.1, c);
    finish_block_typing(state, lines, edits, abs, s, e);
    true
}

/// Record the insertions of block typing one by one and move the cursor and
/// the selection one column right.
fn finish_block_typing(state: &mut FileViewerState, lines: &Vec<String>, edits: Vec<Edit>, abs: usize, s: Position, e: Position)
    requires
        s.1 < usize::MAX,
        e.1 < usize::MAX,
        edits@.len() > 0,
    ensures
        final(state).undo_history.edits@ == undoable(old(state).undo_history) + edits@,
        final(state).undo_history.current == final(state).undo_history.edits@.len(),
        final(state).undo_history.modified,
        final(state).undo_history.find_history == old(state).undo_history.find_history,
        final(state).undo_history.top_line == old(state).top_line,
        final(state).undo_history.cursor_line == abs,
        final(state).undo_history.cursor_col == s.1 + 1,
        final(state).undo_history.content@ == lines@,
        final(state).cursor_col == s.1 + 1,
        final(state).selection_start == Some((s.0, (s.1 + 1) as usize)),
        final(state).selection_end == Some((e.0, (e.1 + 1) as usize)),
        same_outside_editing(*final(state), *old(state)),
        final(state).top_line == old(state).top_line,
        final(state).cursor_line == old(state).cursor_line,
        final(state).desired_cursor_col == old(state).desired_cursor_col,
        final(state).cursor_at_wrap_end == old(state).cursor_at_wrap_end,
        final(state).selection_anchor == old(state).selection_anchor,
        final(state).block_selection == old(state).block_selection,
        final(state).multi_cursors == old(state).multi_cursors,
        final(state).needs_redraw == old(state).needs_redraw,
        final(state).modified == old(state).modified,
        final(state).saved_absolute_cursor == old(state).saved_absolute_cursor,
        final(state).saved_scroll_state == old(state).saved_scroll_state,
{
    let top = state.top_line;
    push_edits(&mut state.undo_history, edits);
    state.cursor_col = s.1 + 1;
    state.selection_start = Some((s.0, s.1 + 1));
    state.selection_end = Some((e.0, e.1 + 1));
    state.undo_history.update_state(top, abs, s.1 + 1, copy_lines(lines));
}

} // verus!

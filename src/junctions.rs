use vstd::prelude::*;

use crate::buffer::{get_cell, Buffer, Cell};
use crate::geometry::{in_canvas, Pos};
use crate::glyphs::{Symbols, SP};

verus! {

/// True iff `c` offers a connection on its bottom edge.
pub open spec fn down_spec(c: char, s: Symbols) -> bool {
    c == s.vline || c == s.tlcorn || c == s.trcorn || c == s.lhinter || c == s.rhinter || c
        == s.tvinter || c == s.cinter || c == s.plus || c == s.n
}

/// True iff `c` offers a connection on its top edge.
pub open spec fn up_spec(c: char, s: Symbols) -> bool {
    c == s.vline || c == s.blcorn || c == s.brcorn || c == s.lhinter || c == s.rhinter || c
        == s.bvinter || c == s.cinter || c == s.plus || c == s.s
}

/// True iff `c` offers a connection on its right edge.
pub open spec fn right_spec(c: char, s: Symbols) -> bool {
    c == s.hline || c == s.tlcorn || c == s.blcorn || c == s.lhinter || c == s.tvinter || c
        == s.bvinter || c == s.cinter || c == s.plus || c == s.w
}

/// True iff `c` offers a connection on its left edge.
pub open spec fn left_spec(c: char, s: Symbols) -> bool {
    c == s.hline || c == s.trcorn || c == s.brcorn || c == s.rhinter || c == s.tvinter || c
        == s.bvinter || c == s.cinter || c == s.plus || c == s.e
}

/// True iff `c` is one of the four arrow heads.
pub open spec fn arrow_tip_spec(c: char, s: Symbols) -> bool {
    c == s.n || c == s.s || c == s.w || c == s.e
}

/// True iff junction fixup may rewrite `c`: a straight segment, a corner, a
/// T-junction, a cross, the junction glyph or an arrow head.
pub open spec fn joinable_spec(c: char, s: Symbols) -> bool {
    c == s.vline || c == s.hline || c == s.tlcorn || c == s.trcorn || c == s.blcorn || c
        == s.brcorn || c == s.lhinter || c == s.rhinter || c == s.tvinter || c == s.bvinter || c
        == s.cinter || c == s.plus || arrow_tip_spec(c, s)
}

/// The box glyph for a pattern of connections toward north, south, west and east.
pub open spec fn smart_spec(n: bool, so: bool, w: bool, e: bool, s: Symbols, fallback: char) -> char {
    if n && so && w && e {
        s.cinter
    } else if n && so && w && !e {
        s.rhinter
    } else if n && so && !w && e {
        s.lhinter
    } else if n && !so && w && e {
        s.bvinter
    } else if !n && so && w && e {
        s.tvinter
    } else if n && so {
        s.vline
    } else if w && e && !n && !so {
        s.hline
    } else if !n && so && !w && e {
        s.tlcorn
    } else if !n && so && w && !e {
        s.trcorn
    } else if n && !so && !w && e {
        s.blcorn
    } else if n && !so && w && !e {
        s.brcorn
    } else if n || so {
        s.vline
    } else if w || e {
        s.hline
    } else {
        fallback
    }
}

/// Returns true if `c` provides a connection point on its bottom edge.
pub fn connects_down(c: char, s: &Symbols) -> (r: bool)
    ensures
        r == down_spec(c, *s),
{
    c == s.vline || c == s.tlcorn || c == s.trcorn || c == s.lhinter || c == s.rhinter || c
        == s.tvinter || c == s.cinter || c == s.plus || c == s.n
}

/// Returns true if `c` provides a connection point on its top edge.
pub fn connects_up(c: char, s: &Symbols) -> (r: bool)
    ensures
        r == up_spec(c, *s),
{
    c == s.vline || c == s.blcorn || c == s.brcorn || c == s.lhinter || c == s.rhinter || c
        == s.bvinter || c == s.cinter || c == s.plus || c == s.s
}

/// Returns true if `c` provides a connection point on its right edge.
pub fn connects_right(c: char, s: &Symbols) -> (r: bool)
    ensures
        r == right_spec(c, *s),
{
    c == s.hline || c == s.tlcorn || c == s.blcorn || c == s.lhinter || c == s.tvinter || c
        == s.bvinter || c == s.cinter || c == s.plus || c == s.w
}

/// Returns true if `c` provides a connection point on its left edge.
pub fn connects_left(c: char, s: &Symbols) -> (r: bool)
    ensures
        r == left_spec(c, *s),
{
    c == s.hline || c == s.trcorn || c == s.brcorn || c == s.rhinter || c == s.tvinter || c
        == s.bvinter || c == s.cinter || c == s.plus || c == s.e
}

/// Returns true if junction fixup may rewrite `c`.
pub fn is_joinable(c: char, s: &Symbols) -> (r: bool)
    ensures
        r == joinable_spec(c, *s),
{
    c == s.vline || c == s.hline || c == s.tlcorn || c == s.trcorn || c == s.blcorn || c
        == s.brcorn || c == s.lhinter || c == s.rhinter || c == s.tvinter || c == s.bvinter || c
        == s.cinter || c == s.plus || is_arrow_tip(c, s)
}

/// Returns true if `c` is an arrow head.
pub fn is_arrow_tip(c: char, s: &Symbols) -> (r: bool)
    ensures
        r == arrow_tip_spec(c, *s),
{
    c == s.n || c == s.s || c == s.w || c == s.e
}

/// Returns the box glyph that joins connections toward north `n`, south `s`,
/// west `w` and east `e`; with no connection at all, `fallback`.
pub fn get_smart_char(n: bool, s: bool, w: bool, e: bool, symbols: &Symbols, fallback: char) -> (r:
    char)
    ensures
        r == smart_spec(n, s, w, e, *symbols, fallback),
{
    if n && s && w && e {
        symbols.cinter
    } else if n && s && w && !e {
        symbols.rhinter
    } else if n && s && !w && e {
        symbols.lhinter
    } else if n && !s && w && e {
        symbols.bvinter
    } else if !n && s && w && e {
        symbols.tvinter
    } else if n && s {
        symbols.vline
    } else if w && e && !n && !s {
        symbols.hline
    } else if !n && s && !w && e {
        symbols.tlcorn
    } else if !n && s && w && !e {
        symbols.trcorn
    } else if n && !s && !w && e {
        symbols.blcorn
    } else if n && !s && w && !e {
        symbols.brcorn
    } else if n || s {
        symbols.vline
    } else if w || e {
        symbols.hline
    } else {
        fallback
    }
}

/// The glyph at `p`, blank where the cell does not exist.
pub open spec fn char_at(g: Seq<Seq<char>>, p: Pos) -> char {
    match get_cell(g, p) {
        Some(c) => c,
        None => SP,
    }
}

pub open spec fn north_of(g: Seq<Seq<char>>, p: Pos) -> char {
    if p.y == 0 {
        SP
    } else {
        char_at(g, Pos { x: p.x, y: (p.y - 1) as usize })
    }
}

pub open spec fn south_of(g: Seq<Seq<char>>, p: Pos) -> char {
    char_at(g, Pos { x: p.x, y: (p.y + 1) as usize })
}

pub open spec fn west_of(g: Seq<Seq<char>>, p: Pos) -> char {
    if p.x == 0 {
        SP
    } else {
        char_at(g, Pos { x: (p.x - 1) as usize, y: p.y })
    }
}

pub open spec fn east_of(g: Seq<Seq<char>>, p: Pos) -> char {
    char_at(g, Pos { x: (p.x + 1) as usize, y: p.y })
}

/// The glyph that junction fixup puts at `p` of `g`: arrow heads and glyphs
/// that are neither blank nor joinable stay; so does a blank cell with fewer
/// than two neighbours connecting toward it; otherwise the box glyph that joins
/// the connecting neighbours. There is no neighbour above the first row or
/// left of the first column, so none connects from there; a missing cell below
/// or to the right reads as blank.
pub open spec fn fixup_spec(g: Seq<Seq<char>>, p: Pos, s: Symbols) -> char {
    let cur = char_at(g, p);
    let nc = p.y > 0 && down_spec(north_of(g, p), s);
    let sc = up_spec(south_of(g, p), s);
    let wc = p.x > 0 && right_spec(west_of(g, p), s);
    let ec = left_spec(east_of(g, p), s);
    let count = (if nc { 1int } else { 0 }) + (if sc { 1int } else { 0 }) + (if wc { 1int } else { 0 }) + (if ec { 1int } else { 0 });
    if arrow_tip_spec(cur, s) || (!joinable_spec(cur, s) && cur != SP) || (cur == SP && count < 2) {
        cur
    } else {
        smart_spec(nc, sc, wc, ec, s, cur)
    }
}

/// The forced writes that fixup stages for `pts`, in order, leaving out the
/// cells of `keep`.
pub open spec fn fixup_changes(g: Seq<Seq<char>>, pts: Seq<Pos>, keep: Seq<Pos>, s: Symbols) -> Seq<
    Cell,
>
    decreases pts.len(),
{
    if pts.len() == 0 {
        Seq::empty()
    } else {
        let rest = fixup_changes(g, pts.drop_last(), keep, s);
        let p = pts.last();
        let c = fixup_spec(g, p, s);
        if !keep.contains(p) && joinable_spec(c, s) {
            rest.push(Cell { pos: p, c })
        } else {
            rest
        }
    }
}

fn char_or_blank(buf: &Buffer, p: Pos) -> (r: char)
    ensures
        r == char_at(buf.grid(), p),
{
    match buf.getv(p) {
        Some(c) => c,
        None => SP,
    }
}

/// Returns the glyph that joins `pos` to its neighbours in the committed rows
/// of `buf`.
pub fn fixup_point(pos: Pos, buf: &Buffer, symbols: &Symbols) -> (r: char)
    requires
        in_canvas(pos),
    ensures
        r == fixup_spec(buf.grid(), pos, *symbols),
{
    let current = char_or_blank(buf, pos);
    if is_arrow_tip(current, symbols) {
        return current;
    }
    if !is_joinable(current, symbols) && current != SP {
        return current;
    }
    let n = if pos.y == 0 {
        SP
    } else {
        char_or_blank(buf, Pos { x: pos.x, y: pos.y - 1 })
    };
    let s = char_or_blank(buf, Pos { x: pos.x, y: pos.y + 1 });
    let w = if pos.x == 0 {
        SP
    } else {
        char_or_blank(buf, Pos { x: pos.x - 1, y: pos.y })
    };
    let e = char_or_blank(buf, Pos { x: pos.x + 1, y: pos.y });
    let nc = pos.y > 0 && connects_down(n, symbols);
    let sc = connects_up(s, symbols);
    let wc = pos.x > 0 && connects_right(w, symbols);
    let ec = connects_left(e, symbols);
    let count: usize = (if nc { 1 } else { 0 }) + (if sc { 1 } else { 0 }) + (if wc { 1 } else { 0 }) + (if ec { 1 } else { 0 });
    if current == SP && count < 2 {
        return current;
    }
    get_smart_char(nc, sc, wc, ec, symbols, current)
}

/// Returns true iff `p` is one of `keep`.
fn kept(keep: &Vec<Pos>, p: Pos) -> (r: bool)
    ensures
        r == keep@.contains(p),
{
    let mut i: usize = 0;
    while i < keep.len()
        invariant
            i <= keep@.len(),
            forall|k: int| 0 <= k < i ==> keep@[k] != p,
        decreases keep@.len() - i,
    {
        if keep[i] == p {
            assert(keep@[i as int] == p);
            return true;
        }
        i += 1;
    }
    false
}

/// Rewrites the glyphs at `points`, other than those of `keep`, so that they
/// join their neighbours, as the rows will be once the pending writes are
/// flushed. The new glyphs are staged as forced writes.
pub fn fixup(buf: &mut Buffer, points: &Vec<Pos>, keep: &Vec<Pos>, symbols: &Symbols)
    requires
        old(buf).wf(),
        forall|i: int| 0 <= i < points@.len() ==> in_canvas(#[trigger] points@[i]),
    ensures
        final(buf).chars@ == old(buf).chars@,
        final(buf).cursor == old(buf).cursor,
        final(buf).edits@ == old(buf).edits@ + fixup_changes(old(buf).merged(), points@, keep@, *symbols),
        final(buf).wf(),
{
    let view = buf.merged_copy();
    let ghost g = view.grid();
    let mut changes: Vec<Cell> = Vec::new();
    let mut i: usize = 0;
    while i < points.len()
        invariant
            i <= points@.len(),
            g == view.grid(),
            forall|k: int| 0 <= k < points@.len() ==> in_canvas(#[trigger] points@[k]),
            changes@ == fixup_changes(g, points@.take(i as int), keep@, *symbols),
            forall|k: int| 0 <= k < changes@.len() ==> in_canvas(#[trigger] changes@[k].pos),
        decreases points@.len() - i,
    {
        let p = points[i];
        assert(points@.take(i + 1).drop_last() =~= points@.take(i as int));
        if !kept(keep, p) {
            let c = fixup_point(p, &view, symbols);
            if is_joinable(c, symbols) {
                changes.push(Cell { pos: p, c });
            }
        }
        i += 1;
    }
    assert(points@.take(i as int) =~= points@);
    let ghost e0 = buf.edits@;
    let mut j: usize = 0;
    while j < changes.len()
        invariant
            j <= changes@.len(),
            buf.wf(),
            buf.chars@ == old(buf).chars@,
            buf.cursor == old(buf).cursor,
            buf.edits@ == e0 + changes@.take(j as int),
            forall|k: int| 0 <= k < changes@.len() ==> in_canvas(#[trigger] changes@[k].pos),
        decreases changes@.len() - j,
    {
        let cell = changes[j];
        assert(in_canvas(changes@[j as int].pos));
        buf.setv(true, cell.pos, cell.c);
        assert(changes@.take(j + 1) =~= changes@.take(j as int).push(cell));
        j += 1;
    }
    assert(changes@.take(j as int) =~= changes@);
}

} // verus!

use vstd::prelude::*;

use crate::buffer::{
    apply_edits, discarded, flushed, BufferModel, get_cell, lines_of, pieces, render_spec, set_edits, strip_cr, write_cell, Cell,
};
use crate::geometry::Pos;
use crate::glyphs::SP;
use crate::tools::{move_writes, moved};
use crate::glyphs::rank;

verus! {

/// A row that a line of text can hold as it is: no newline in it, and no
/// carriage return at its end.
pub open spec fn is_line(r: Seq<char>) -> bool {
    &&& forall|i: int| 0 <= i < r.len() ==> r[i] != '\n'
    &&& !(r.len() > 0 && r.last() == '\r')
}

proof fn lemma_pieces_extend(t: Seq<char>, r: Seq<char>)
    requires
        forall|i: int| 0 <= i < r.len() ==> r[i] != '\n',
    ensures
        pieces(t).len() >= 1,
        pieces(t + r) == pieces(t).update(pieces(t).len() - 1, pieces(t).last() + r),
    decreases r.len(),
{
    lemma_pieces_nonempty(t);
    if r.len() == 0 {
        assert(t + r =~= t);
        assert(pieces(t).last() + r =~= pieces(t).last());
        assert(pieces(t).update(pieces(t).len() - 1, pieces(t).last()) =~= pieces(t));
    } else {
        let r1 = r.drop_last();
        lemma_pieces_extend(t, r1);
        assert((t + r).drop_last() =~= t + r1);
        assert((t + r).last() == r.last());
        let p1 = pieces(t + r1);
        assert(p1.last() == pieces(t).last() + r1);
        assert(p1.last().push(r.last()) =~= pieces(t).last() + r);
        assert(pieces(t + r) =~= pieces(t).update(pieces(t).len() - 1, pieces(t).last() + r));
    }
}

proof fn lemma_pieces_nonempty(t: Seq<char>)
    ensures
        pieces(t).len() >= 1,
    decreases t.len(),
{
    if t.len() > 0 {
        lemma_pieces_nonempty(t.drop_last());
    }
}

proof fn lemma_pieces_render(g: Seq<Seq<char>>)
    requires
        forall|i: int| 0 <= i < g.len() ==> is_line(#[trigger] g[i]),
    ensures
        pieces(render_spec(g, Seq::empty())) == g.push(Seq::<char>::empty()),
    decreases g.len(),
{
    if g.len() == 0 {
        assert(pieces(Seq::<char>::empty()) =~= g.push(Seq::<char>::empty()));
    } else {
        let strong = g.drop_last();
        assert forall|i: int| 0 <= i < strong.len() implies is_line(#[trigger] strong[i]) by {
            assert(strong[i] == g[i]);
        }
        lemma_pieces_render(strong);
        let t0 = render_spec(strong, Seq::empty());
        let row = g.last();
        assert(is_line(g[g.len() - 1]));
        lemma_pieces_extend(t0, row);
        let t = render_spec(g, Seq::empty());
        assert(t =~= (t0 + row).push('\n'));
        assert(t.drop_last() =~= t0 + row);
        assert(pieces(t0 + row) =~= strong.push(row));
        assert(pieces(t) =~= g.push(Seq::<char>::empty()));
    }
}

/// Rendering the rows without a prefix and reading the text back gives the same
/// rows.
pub proof fn lemma_render_read_round_trip(g: Seq<Seq<char>>)
    requires
        forall|i: int| 0 <= i < g.len() ==> is_line(#[trigger] g[i]),
    ensures
        lines_of(render_spec(g, Seq::empty())) == g,
{
    lemma_pieces_render(g);
    let t = render_spec(g, Seq::empty());
    let p = pieces(t);
    if g.len() > 0 {
        assert(t.last() == '\n');
    }
    assert(p.drop_last() =~= g);
    assert forall|i: int| 0 <= i < g.len() implies strip_cr(#[trigger] g[i]) == g[i] by {
        assert(is_line(g[i]));
    }
    assert(lines_of(t) =~= g);
}

/// Flushing a buffer with no pending writes leaves it as it is.
pub proof fn lemma_flush_empty(m: BufferModel)
    requires
        m.edits.len() == 0,
    ensures
        flushed(m) == m,
{
    assert(m.edits =~= Seq::<Cell>::empty());
}

/// Dropping the pending writes twice is the same as dropping them once.
pub proof fn lemma_discard_twice(m: BufferModel)
    ensures
        discarded(discarded(m)) == discarded(m),
{
}

/// A write lands in its own cell.
pub proof fn lemma_write_cell_get(g: Seq<Seq<char>>, p: Pos, c: char)
    ensures
        get_cell(write_cell(g, p, c), p) == Some(c),
{
}

/// Of two non-forced writes to one cell, the weaker second one does not
/// replace the first: after a flush the cell holds the first glyph. The cell
/// holds no pending write beforehand, and its committed glyph, if any, does
/// not keep the first write out.
pub proof fn lemma_stronger_write_survives(
    g: Seq<Seq<char>>,
    es: Seq<Cell>,
    p: Pos,
    strong: char,
    weak: char,
)
    requires
        rank(weak) < rank(strong),
        forall|i: int| 0 <= i < es.len() ==> (#[trigger] es[i]).pos != p,
        get_cell(g, p) matches Some(old) ==> !crate::glyphs::blocks(old, strong),
    ensures
        get_cell(apply_edits(g, set_edits(g, set_edits(g, es, false, p, strong), false, p, weak)), p)
            == Some(strong),
{
    let es1 = set_edits(g, es, false, p, strong);
    let es2 = set_edits(g, es1, false, p, weak);
    assert(!exists|i: int| 0 <= i < es.len() && es[i].pos == p && crate::glyphs::blocks(es[i].c, strong));
    assert(es1 == es.push(Cell { pos: p, c: strong }));
    assert(es1[es.len() as int].pos == p);
    assert(es2 == es1);
    assert(es1.drop_last() =~= es);
    lemma_write_cell_get(apply_edits(g, es), p, strong);
}

/// A write leaves every other existing cell as it was.
proof fn lemma_write_cell_other(g: Seq<Seq<char>>, p: Pos, c: char, q: Pos)
    requires
        q != p,
        get_cell(g, q) is Some,
    ensures
        get_cell(write_cell(g, p, c), q) == get_cell(g, q),
{
}

/// Applying two runs of writes one after the other is applying them together.
proof fn lemma_apply_concat(g: Seq<Seq<char>>, a: Seq<Cell>, b: Seq<Cell>)
    ensures
        apply_edits(g, a + b) == apply_edits(apply_edits(g, a), b),
    decreases b.len(),
{
    if b.len() == 0 {
        assert(a + b =~= a);
    } else {
        lemma_apply_concat(g, a, b.drop_last());
        assert((a + b).drop_last() =~= a + b.drop_last());
        assert((a + b).last() == b.last());
    }
}

/// True iff no two of the cells `cs` land on the same place when moved from
/// `from` to `to`.
pub open spec fn distinct_targets(cs: Seq<Cell>, from: Pos, to: Pos) -> bool {
    forall|j: int, k: int|
        0 <= j < cs.len() && 0 <= k < cs.len() && j != k && moved(cs[j].pos, from, to) is Some
            ==> moved(cs[j].pos, from, to) != moved(cs[k].pos, from, to)
}

proof fn lemma_moved_lands(h: Seq<Seq<char>>, cs: Seq<Cell>, from: Pos, to: Pos, i: int)
    requires
        0 <= i < cs.len(),
        moved(cs[i].pos, from, to) is Some,
        distinct_targets(cs, from, to),
    ensures
        get_cell(apply_edits(h, move_writes(cs, from, to)), moved(cs[i].pos, from, to)->0) == Some(cs[i].c),
    decreases cs.len(),
{
    let n = cs.len();
    let q = moved(cs[i].pos, from, to)->0;
    let prev = move_writes(cs.drop_last(), from, to);
    let last = cs.last();
    if i == n - 1 {
        assert(move_writes(cs, from, to) == prev.push(Cell { pos: q, c: cs[i].c }));
        assert(prev.push(Cell { pos: q, c: cs[i].c }).drop_last() =~= prev);
        lemma_write_cell_get(apply_edits(h, prev), q, cs[i].c);
    } else {
        let d = cs.drop_last();
        assert(d[i] == cs[i]);
        assert forall|j: int, k: int|
            0 <= j < d.len() && 0 <= k < d.len() && j != k && moved(d[j].pos, from, to) is Some
                implies moved(d[j].pos, from, to) != moved(d[k].pos, from, to) by {
            assert(d[j] == cs[j] && d[k] == cs[k]);
        }
        lemma_moved_lands(h, d, from, to, i);
        match moved(last.pos, from, to) {
            Some(q2) => {
                assert(moved(cs[n - 1].pos, from, to) != moved(cs[i].pos, from, to));
                assert(move_writes(cs, from, to) == prev.push(Cell { pos: q2, c: last.c }));
                assert(prev.push(Cell { pos: q2, c: last.c }).drop_last() =~= prev);
                lemma_write_cell_other(apply_edits(h, prev), q2, last.c, q);
            },
            None => {
                assert(move_writes(cs, from, to) == prev);
            },
        }
    }
}

/// A move writes over whatever is at the destination: once the blanks and the
/// moved glyphs that `move_on_buffer` stages are flushed, every moved cell
/// holds its glyph at its new place, as long as no two cells land on the same
/// place.
pub proof fn lemma_moved_glyphs_win(
    g: Seq<Seq<char>>,
    es: Seq<Cell>,
    cs: Seq<Cell>,
    from: Pos,
    to: Pos,
    i: int,
)
    requires
        0 <= i < cs.len(),
        moved(cs[i].pos, from, to) is Some,
        distinct_targets(cs, from, to),
    ensures
        get_cell(
            apply_edits(g, es + blanks(cs) + move_writes(cs, from, to)),
            moved(cs[i].pos, from, to)->0,
        ) == Some(cs[i].c),
{
    let pre = es + blanks(cs);
    lemma_apply_concat(g, pre, move_writes(cs, from, to));
    lemma_moved_lands(apply_edits(g, pre), cs, from, to, i);
}

/// The forced blanks that a move stages over the cells it lifts.
pub open spec fn blanks(cs: Seq<Cell>) -> Seq<Cell> {
    cs.map_values(|c: Cell| Cell { pos: c.pos, c: SP })
}

/// Writes elsewhere leave an existing cell as it was.
proof fn lemma_writes_elsewhere(h: Seq<Seq<char>>, ws: Seq<Cell>, q: Pos)
    requires
        get_cell(h, q) is Some,
        forall|i: int| 0 <= i < ws.len() ==> (#[trigger] ws[i]).pos != q,
    ensures
        get_cell(apply_edits(h, ws), q) == get_cell(h, q),
    decreases ws.len(),
{
    if ws.len() > 0 {
        let v = ws.drop_last();
        assert forall|i: int| 0 <= i < v.len() implies (#[trigger] v[i]).pos != q by {
            assert(v[i] == ws[i]);
        }
        lemma_writes_elsewhere(h, v, q);
        assert(ws[ws.len() - 1].pos != q);
        lemma_write_cell_other(apply_edits(h, v), ws.last().pos, ws.last().c, q);
    }
}

/// Every write of a move lands on the new place of one of the moved cells.
proof fn lemma_move_targets(cs: Seq<Cell>, from: Pos, to: Pos)
    ensures
        forall|k: int|
            0 <= k < move_writes(cs, from, to).len() ==> exists|j: int|
                0 <= j < cs.len() && moved(cs[j].pos, from, to) == Some(
                    (#[trigger] move_writes(cs, from, to)[k]).pos,
                ),
    decreases cs.len(),
{
    if cs.len() > 0 {
        let d = cs.drop_last();
        lemma_move_targets(d, from, to);
        let prev = move_writes(d, from, to);
        let mw = move_writes(cs, from, to);
        assert forall|k: int| 0 <= k < mw.len() implies exists|j: int|
            0 <= j < cs.len() && moved(cs[j].pos, from, to) == Some((#[trigger] mw[k]).pos) by {
            if k < prev.len() {
                assert(mw[k] == prev[k]);
                let j = choose|j: int| 0 <= j < d.len() && moved(d[j].pos, from, to) == Some(prev[k].pos);
                assert(d[j] == cs[j]);
            } else {
                assert(moved(cs[cs.len() - 1].pos, from, to) == Some(mw[k].pos));
            }
        }
    }
}

proof fn lemma_blank_lands(h: Seq<Seq<char>>, cs: Seq<Cell>, i: int)
    requires
        0 <= i < cs.len(),
    ensures
        get_cell(apply_edits(h, blanks(cs)), cs[i].pos) == Some(SP),
    decreases cs.len(),
{
    let d = cs.drop_last();
    let p = cs[i].pos;
    assert(blanks(cs).drop_last() =~= blanks(d));
    assert(blanks(cs).last() == Cell { pos: cs.last().pos, c: SP });
    if cs.last().pos == p {
        lemma_write_cell_get(apply_edits(h, blanks(d)), p, SP);
    } else {
        assert(i < cs.len() - 1);
        assert(d[i] == cs[i]);
        lemma_blank_lands(h, d, i);
        lemma_write_cell_other(apply_edits(h, blanks(d)), cs.last().pos, SP, p);
    }
}

/// A moved cell that no other cell moves onto is left blank.
pub proof fn lemma_move_leaves_blanks(g: Seq<Seq<char>>, es: Seq<Cell>, cs: Seq<Cell>, from: Pos, to: Pos, i: int)
    requires
        0 <= i < cs.len(),
        forall|j: int| 0 <= j < cs.len() ==> moved(#[trigger] cs[j].pos, from, to) != Some(cs[i].pos),
    ensures
        get_cell(apply_edits(g, es + blanks(cs) + move_writes(cs, from, to)), cs[i].pos) == Some(SP),
{
    let h = apply_edits(g, es);
    lemma_apply_concat(g, es, blanks(cs));
    lemma_blank_lands(h, cs, i);
    lemma_apply_concat(g, es + blanks(cs), move_writes(cs, from, to));
    lemma_move_targets(cs, from, to);
    let mw = move_writes(cs, from, to);
    assert forall|k: int| 0 <= k < mw.len() implies (#[trigger] mw[k]).pos != cs[i].pos by {
        let j = choose|j: int| 0 <= j < cs.len() && moved(cs[j].pos, from, to) == Some(mw[k].pos);
        assert(moved(cs[j].pos, from, to) != Some(cs[i].pos));
    }
    lemma_writes_elsewhere(apply_edits(g, es + blanks(cs)), mw, cs[i].pos);
}

/// A move leaves every other existing cell as it was: one that is neither a
/// moved cell nor the new place of one.
pub proof fn lemma_move_keeps_others(g: Seq<Seq<char>>, cs: Seq<Cell>, from: Pos, to: Pos, q: Pos)
    requires
        get_cell(g, q) is Some,
        forall|j: int| 0 <= j < cs.len() ==> (#[trigger] cs[j]).pos != q && moved(cs[j].pos, from, to) != Some(q),
    ensures
        get_cell(apply_edits(g, blanks(cs) + move_writes(cs, from, to)), q) == get_cell(g, q),
{
    let mw = move_writes(cs, from, to);
    let ws = blanks(cs) + mw;
    lemma_move_targets(cs, from, to);
    assert forall|k: int| 0 <= k < ws.len() implies (#[trigger] ws[k]).pos != q by {
        if k < cs.len() {
            assert(ws[k] == blanks(cs)[k]);
            assert(blanks(cs)[k].pos == cs[k].pos);
        } else {
            assert(ws[k] == mw[k - cs.len()]);
            let j = choose|j: int| 0 <= j < cs.len() && moved(cs[j].pos, from, to) == Some(mw[k - cs.len()].pos);
            assert(moved(cs[j].pos, from, to) != Some(q));
        }
    }
    lemma_writes_elsewhere(g, ws, q);
}

} // verus!

use vstd::prelude::*;

use crate::buffer::{set_edits, Buffer, Cell};
use crate::geometry::{abs, in_canvas, line_slope, sign, slope_spec, Pos};
use crate::glyphs::Symbols;
use crate::junctions::fixup_changes;

verus! {

/// A staged write: position, glyph, and whether it bypasses precedence.
pub type Write = (Pos, char, bool);

/// The cells that `line_drawing::Bresenham` visits from `(sx, sy)` to `(ex, ey)`.
pub uninterp spec fn bresenham_of(sx: int, sy: int, ex: int, ey: int) -> Seq<(int, int)>;

pub open spec fn min_int(a: int, b: int) -> int {
    if a <= b {
        a
    } else {
        b
    }
}

pub open spec fn max_int(a: int, b: int) -> int {
    if a >= b {
        a
    } else {
        b
    }
}

/// True iff each step from `a` to `b` of a walk from `(sx, sy)` to `(ex, ey)`
/// moves one unit along the longer axis toward the end, and zero or one unit
/// toward the end along the other.
pub open spec fn bresenham_step(a: (int, int), b: (int, int), sx: int, sy: int, ex: int, ey: int) -> bool {
    if abs(ex - sx) >= abs(ey - sy) {
        b.0 - a.0 == sign(ex - sx) && (b.1 - a.1 == 0 || b.1 - a.1 == sign(ey - sy))
    } else {
        b.1 - a.1 == sign(ey - sy) && (b.0 - a.0 == 0 || b.0 - a.0 == sign(ex - sx))
    }
}

/// Relies on `line_drawing::Bresenham`: its walk includes the start and the end
/// point, takes one point per unit of the longer axis, moving one unit along
/// that axis and at most one along the other at each step, both toward the
/// end, and stays within the box that the two points span.
#[verifier::external_body]
fn bresenham(sx: i64, sy: i64, ex: i64, ey: i64) -> (r: Vec<(i64, i64)>)
    requires
        0 <= sx < 0x4000_0000,
        0 <= sy < 0x4000_0000,
        0 <= ex < 0x4000_0000,
        0 <= ey < 0x4000_0000,
    ensures
        r@.map_values(|p: (i64, i64)| (p.0 as int, p.1 as int)) == bresenham_of(
            sx as int,
            sy as int,
            ex as int,
            ey as int,
        ),
        r@.len() == max_int(abs(ex - sx) as int, abs(ey - sy) as int) + 1,
        r@[0] == (sx, sy),
        r@.last() == (ex, ey),
        forall|i: int|
            0 <= i < r@.len() - 1 ==> bresenham_step(
                ((#[trigger] r@[i]).0 as int, r@[i].1 as int),
                (r@[i + 1].0 as int, r@[i + 1].1 as int),
                sx as int,
                sy as int,
                ex as int,
                ey as int,
            ),
        forall|i: int|
            0 <= i < r@.len() ==> min_int(sx as int, ex as int) <= (#[trigger] r@[i]).0 <= max_int(
                sx as int,
                ex as int,
            ) && min_int(sy as int, ey as int) <= r@[i].1 <= max_int(sy as int, ey as int),
{
    line_drawing::Bresenham::new((sx, sy), (ex, ey)).collect()
}

/// True iff consecutive cells of `p` are at most one unit apart on each axis.
pub open spec fn steps_adjacent(p: Seq<Pos>) -> bool {
    forall|i: int|
        0 <= i < p.len() - 1 ==> abs((#[trigger] p[i + 1]).x - p[i].x) <= 1 && abs(p[i + 1].y - p[i].y) <= 1
}

/// The cells of the straight line from `src` to `dst`, both included.
pub open spec fn line_cells(src: Pos, dst: Pos) -> Seq<Pos> {
    bresenham_of(src.x as int, src.y as int, dst.x as int, dst.y as int).map_values(
        |p: (int, int)| Pos { x: p.0 as usize, y: p.1 as usize },
    )
}

/// The glyph for a straight stroke in the direction of `slope`.
pub open spec fn stroke_glyph(slope: (int, int), s: Symbols) -> char {
    if slope.0 == 0 {
        s.vline
    } else if slope.1 == 0 {
        s.hline
    } else if (slope.0 > 0) == (slope.1 > 0) {
        s.gaid2
    } else {
        s.diag2
    }
}

/// The writes that draw a line from `src` to `dst`: the junction glyph, forced,
/// at both ends, and the stroke glyph for its direction in between.
pub open spec fn line_writes(src: Pos, dst: Pos, s: Symbols) -> Seq<Write> {
    let body = line_cells(src, dst).drop_last();
    let c = stroke_glyph(slope_spec(src, dst), s);
    Seq::new(
        body.len(),
        |i: int|
            if i == 0 {
                (body[i], s.plus, true)
            } else {
                (body[i], c, false)
            },
    ).push((dst, s.plus, true))
}

/// The pending writes after staging `ws` in order over the committed rows `g`.
pub open spec fn stage(g: Seq<Seq<char>>, es: Seq<Cell>, ws: Seq<Write>) -> Seq<Cell>
    decreases ws.len(),
{
    if ws.len() == 0 {
        es
    } else {
        let w = ws.last();
        set_edits(g, stage(g, es, ws.drop_last()), w.2, w.0, w.1)
    }
}

/// The pending writes after drawing `writes` over `cells` and joining those
/// cells, other than the anchors in `keep`, to their neighbours.
pub open spec fn drawn(
    g: Seq<Seq<char>>,
    es: Seq<Cell>,
    writes: Seq<Write>,
    cells: Seq<Pos>,
    keep: Seq<Pos>,
    s: Symbols,
) -> Seq<Cell> {
    let staged = stage(g, es, writes);
    staged + fixup_changes(crate::buffer::apply_edits(g, staged), cells, keep, s)
}

/// The cells of the forced writes among `ws`, in order.
pub open spec fn forced_cells(ws: Seq<Write>) -> Seq<Pos>
    decreases ws.len(),
{
    if ws.len() == 0 {
        Seq::empty()
    } else {
        let rest = forced_cells(ws.drop_last());
        if ws.last().2 {
            rest.push(ws.last().0)
        } else {
            rest
        }
    }
}

/// Staging two runs of writes one after the other is staging them together.
pub proof fn lemma_stage_concat(g: Seq<Seq<char>>, es: Seq<Cell>, a: Seq<Write>, b: Seq<Write>)
    ensures
        stage(g, es, a + b) == stage(g, stage(g, es, a), b),
    decreases b.len(),
{
    if b.len() == 0 {
        assert(a + b =~= a);
    } else {
        lemma_stage_concat(g, es, a, b.drop_last());
        assert((a + b).drop_last() =~= a + b.drop_last());
        assert((a + b).last() == b.last());
    }
}

/// Stage each write of `ws` in order.
pub fn apply_writes(buf: &mut Buffer, ws: &Vec<Write>)
    requires
        old(buf).wf(),
        forall|i: int| 0 <= i < ws@.len() ==> in_canvas((#[trigger] ws@[i]).0),
    ensures
        final(buf).chars@ == old(buf).chars@,
        final(buf).cursor == old(buf).cursor,
        final(buf).edits@ == stage(old(buf).grid(), old(buf).edits@, ws@),
        final(buf).wf(),
{
    let mut i: usize = 0;
    while i < ws.len()
        invariant
            i <= ws@.len(),
            buf.wf(),
            buf.chars@ == old(buf).chars@,
            buf.cursor == old(buf).cursor,
            buf.edits@ == stage(old(buf).grid(), old(buf).edits@, ws@.take(i as int)),
            forall|k: int| 0 <= k < ws@.len() ==> in_canvas((#[trigger] ws@[k]).0),
        decreases ws@.len() - i,
    {
        let w = ws[i];
        assert(in_canvas(ws@[i as int].0));
        assert(ws@.take(i + 1).drop_last() =~= ws@.take(i as int));
        buf.setv(w.2, w.0, w.1);
        i += 1;
    }
    assert(ws@.take(i as int) =~= ws@);
}

/// A walk whose every step is a Bresenham step along a row or a column visits
/// the cells of that row or column one by one.
proof fn lemma_straight_walk(w: Seq<(int, int)>, sx: int, sy: int, ex: int, ey: int)
    requires
        w.len() >= 1,
        w[0] == (sx, sy),
        sx == ex || sy == ey,
        forall|i: int| 0 <= i < w.len() - 1 ==> bresenham_step(#[trigger] w[i], w[i + 1], sx, sy, ex, ey),
    ensures
        forall|i: int| 0 <= i < w.len() ==> #[trigger] w[i] == (sx + i * sign(ex - sx), sy + i * sign(ey - sy)),
    decreases w.len(),
{
    if w.len() > 1 {
        let v = w.drop_last();
        assert forall|i: int| 0 <= i < v.len() - 1 implies bresenham_step(#[trigger] v[i], v[i + 1], sx, sy, ex, ey) by {
            assert(v[i] == w[i] && v[i + 1] == w[i + 1]);
        }
        lemma_straight_walk(v, sx, sy, ex, ey);
        let k = w.len() - 1;
        assert(v[k - 1] == w[k - 1]);
        assert(bresenham_step(w[k - 1], w[k - 1 + 1], sx, sy, ex, ey));
        assert((k - 1) * sign(ex - sx) + sign(ex - sx) == k * sign(ex - sx)) by (nonlinear_arith);
        assert((k - 1) * sign(ey - sy) + sign(ey - sy) == k * sign(ey - sy)) by (nonlinear_arith);
        assert forall|i: int| 0 <= i < w.len() implies #[trigger] w[i] == (sx + i * sign(ex - sx), sy + i * sign(
            ey - sy,
        )) by {
            if i < k {
                assert(w[i] == v[i]);
            }
        }
    }
}

/// Along the longer axis a Bresenham walk moves one unit per step, so no cell
/// comes twice.
proof fn lemma_walk_distinct(w: Seq<(int, int)>, sx: int, sy: int, ex: int, ey: int)
    requires
        w.len() >= 1,
        w[0] == (sx, sy),
        w.len() == max_int(abs(ex - sx) as int, abs(ey - sy) as int) + 1,
        forall|i: int| 0 <= i < w.len() - 1 ==> bresenham_step(#[trigger] w[i], w[i + 1], sx, sy, ex, ey),
    ensures
        forall|i: int, j: int| 0 <= i < j < w.len() ==> #[trigger] w[i] != #[trigger] w[j],
{
    lemma_major_walk(w, sx, sy, ex, ey);
    assert forall|i: int, j: int| 0 <= i < j < w.len() implies #[trigger] w[i] != #[trigger] w[j] by {
        if abs(ex - sx) >= abs(ey - sy) {
            assert(ex - sx != 0);
            let d = sign(ex - sx);
            assert(i * d != j * d) by (nonlinear_arith)
                requires
                    i < j,
                    d == 1 || d == -1,
            ;
        } else {
            let d = sign(ey - sy);
            assert(i * d != j * d) by (nonlinear_arith)
                requires
                    i < j,
                    d == 1 || d == -1,
            ;
        }
    }
}

proof fn lemma_major_walk(w: Seq<(int, int)>, sx: int, sy: int, ex: int, ey: int)
    requires
        w.len() >= 1,
        w[0] == (sx, sy),
        forall|i: int| 0 <= i < w.len() - 1 ==> bresenham_step(#[trigger] w[i], w[i + 1], sx, sy, ex, ey),
    ensures
        forall|i: int|
            0 <= i < w.len() ==> (abs(ex - sx) >= abs(ey - sy) ==> (#[trigger] w[i]).0 == sx + i * sign(ex - sx))
                && (abs(ex - sx) < abs(ey - sy) ==> w[i].1 == sy + i * sign(ey - sy)),
    decreases w.len(),
{
    if w.len() > 1 {
        let v = w.drop_last();
        assert forall|i: int| 0 <= i < v.len() - 1 implies bresenham_step(#[trigger] v[i], v[i + 1], sx, sy, ex, ey) by {
            assert(v[i] == w[i] && v[i + 1] == w[i + 1]);
        }
        lemma_major_walk(v, sx, sy, ex, ey);
        let k = w.len() - 1;
        assert(v[k - 1] == w[k - 1]);
        assert(bresenham_step(w[k - 1], w[k - 1 + 1], sx, sy, ex, ey));
        assert((k - 1) * sign(ex - sx) + sign(ex - sx) == k * sign(ex - sx)) by (nonlinear_arith);
        assert((k - 1) * sign(ey - sy) + sign(ey - sy) == k * sign(ey - sy)) by (nonlinear_arith);
        assert forall|i: int| 0 <= i < w.len() implies (abs(ex - sx) >= abs(ey - sy) ==> (#[trigger] w[i]).0 == sx + i
            * sign(ex - sx)) && (abs(ex - sx) < abs(ey - sy) ==> w[i].1 == sy + i * sign(ey - sy)) by {
            if i < k {
                assert(w[i] == v[i]);
            }
        }
    }
}

/// Returns the cells of the straight line from `src` to `dst`.
pub(crate) fn line_points(src: Pos, dst: Pos) -> (r: Vec<Pos>)
    requires
        in_canvas(src),
        in_canvas(dst),
    ensures
        r@ == line_cells(src, dst),
        r@.len() == max_int(abs(dst.x - src.x) as int, abs(dst.y - src.y) as int) + 1,
        r@[0] == src,
        r@.last() == dst,
        steps_adjacent(r@),
        forall|i: int|
            0 <= i < r@.len() - 1 ==> bresenham_step(
                ((#[trigger] r@[i]).x as int, r@[i].y as int),
                (r@[i + 1].x as int, r@[i + 1].y as int),
                src.x as int,
                src.y as int,
                dst.x as int,
                dst.y as int,
            ),
        forall|i: int, j: int| 0 <= i < j < r@.len() ==> #[trigger] r@[i] != #[trigger] r@[j],
        src.y == dst.y ==> forall|i: int|
            0 <= i < r@.len() ==> #[trigger] r@[i] == (Pos {
                x: (src.x + i * sign(dst.x - src.x)) as usize,
                y: src.y,
            }),
        src.x == dst.x ==> forall|i: int|
            0 <= i < r@.len() ==> #[trigger] r@[i] == (Pos {
                x: src.x,
                y: (src.y + i * sign(dst.y - src.y)) as usize,
            }),
        forall|i: int| 0 <= i < r@.len() ==> in_canvas(#[trigger] r@[i]),
{
    let pts = bresenham(src.x as i64, src.y as i64, dst.x as i64, dst.y as i64);
    let ghost b = bresenham_of(src.x as int, src.y as int, dst.x as int, dst.y as int);
    assert(pts@.map_values(|p: (i64, i64)| (p.0 as int, p.1 as int)) == b);
    let mut out: Vec<Pos> = Vec::new();
    let mut i: usize = 0;
    while i < pts.len()
        invariant
            i <= pts@.len(),
            in_canvas(src),
            in_canvas(dst),
            pts@.len() >= 1,
            pts@.map_values(|p: (i64, i64)| (p.0 as int, p.1 as int)) == b,
            out@.len() == i,
            forall|k: int| 0 <= k < i ==> #[trigger] out@[k] == (Pos { x: b[k].0 as usize, y: b[k].1 as usize }),
            forall|k: int| 0 <= k < i ==> in_canvas(#[trigger] out@[k]),
            forall|k: int|
                0 <= k < pts@.len() ==> min_int(src.x as int, dst.x as int) <= (#[trigger] pts@[k]).0
                    <= max_int(src.x as int, dst.x as int) && min_int(src.y as int, dst.y as int)
                    <= pts@[k].1 <= max_int(src.y as int, dst.y as int),
        decreases pts@.len() - i,
    {
        let p = pts[i];
        assert(b[i as int] == (p.0 as int, p.1 as int));
        out.push(Pos { x: p.0 as usize, y: p.1 as usize });
        i += 1;
    }
    assert(out@ =~= line_cells(src, dst));
    assert forall|k: int| 0 <= k < out@.len() - 1 implies abs((#[trigger] out@[k + 1]).x - out@[k].x) <= 1
        && abs(out@[k + 1].y - out@[k].y) <= 1 by {
        assert(bresenham_step(
            (pts@[k].0 as int, pts@[k].1 as int),
            (pts@[k + 1].0 as int, pts@[k + 1].1 as int),
            src.x as int,
            src.y as int,
            dst.x as int,
            dst.y as int,
        ));
        assert(out@[k] == (Pos { x: b[k].0 as usize, y: b[k].1 as usize }));
        assert(out@[k + 1] == (Pos { x: b[k + 1].0 as usize, y: b[k + 1].1 as usize }));
    }
    proof {
        assert forall|i: int| 0 <= i < b.len() - 1 implies bresenham_step(
            #[trigger] b[i],
            b[i + 1],
            src.x as int,
            src.y as int,
            dst.x as int,
            dst.y as int,
        ) by {
            assert(b[i] == (pts@[i].0 as int, pts@[i].1 as int));
            assert(b[i + 1] == (pts@[i + 1].0 as int, pts@[i + 1].1 as int));
        }
        assert(b[0] == (src.x as int, src.y as int));
        lemma_walk_distinct(b, src.x as int, src.y as int, dst.x as int, dst.y as int);
        assert forall|i: int| 0 <= i < out@.len() implies #[trigger] out@[i] == (Pos { x: b[i].0 as usize, y: b[i].1 as usize })
            && b[i].0 == out@[i].x && b[i].1 == out@[i].y by {
            assert(b[i] == (pts@[i].0 as int, pts@[i].1 as int));
        }
        assert forall|i: int, j: int| 0 <= i < j < out@.len() implies #[trigger] out@[i] != #[trigger] out@[j] by {
            assert(b[i] != b[j]);
        }
        if src.x == dst.x || src.y == dst.y {
            assert forall|i: int| 0 <= i < b.len() - 1 implies bresenham_step(
                #[trigger] b[i],
                b[i + 1],
                src.x as int,
                src.y as int,
                dst.x as int,
                dst.y as int,
            ) by {
                assert(b[i] == (pts@[i].0 as int, pts@[i].1 as int));
                assert(b[i + 1] == (pts@[i + 1].0 as int, pts@[i + 1].1 as int));
            }
            assert(b[0] == (src.x as int, src.y as int));
            lemma_straight_walk(b, src.x as int, src.y as int, dst.x as int, dst.y as int);
            assert forall|i: int| 0 <= i < out@.len() implies #[trigger] out@[i] == (Pos {
                x: (src.x + i * sign(dst.x - src.x)) as usize,
                y: (src.y + i * sign(dst.y - src.y)) as usize,
            }) by {
                assert(out@[i] == (Pos { x: b[i].0 as usize, y: b[i].1 as usize }));
            }
        }
    }
    out
}

/// Returns the stroke glyph for a line from `src` to `dst`.
pub(crate) fn stroke(src: Pos, dst: Pos, symbols: &Symbols) -> (r: char)
    requires
        in_canvas(src),
        in_canvas(dst),
    ensures
        r == stroke_glyph(slope_spec(src, dst), *symbols),
{
    let (x, y) = line_slope(src, dst);
    if x == 0 {
        symbols.vline
    } else if y == 0 {
        symbols.hline
    } else if (x > 0) == (y > 0) {
        symbols.gaid2
    } else {
        symbols.diag2
    }
}

/// Draw a line from `src` to `dst` into the overlay and move the cursor to
/// `dst`. Returns the cells of the line.
pub fn draw_line(buf: &mut Buffer, src: Pos, dst: Pos, symbols: &Symbols) -> (r: Vec<Pos>)
    requires
        old(buf).wf(),
        in_canvas(src),
        in_canvas(dst),
    ensures
        r@ == line_cells(src, dst),
        r@.len() == max_int(abs(dst.x - src.x) as int, abs(dst.y - src.y) as int) + 1,
        r@[0] == src,
        r@.last() == dst,
        steps_adjacent(r@),
        forall|i: int|
            0 <= i < r@.len() - 1 ==> bresenham_step(
                ((#[trigger] r@[i]).x as int, r@[i].y as int),
                (r@[i + 1].x as int, r@[i + 1].y as int),
                src.x as int,
                src.y as int,
                dst.x as int,
                dst.y as int,
            ),
        forall|i: int, j: int| 0 <= i < j < r@.len() ==> #[trigger] r@[i] != #[trigger] r@[j],
        src.y == dst.y ==> forall|i: int|
            0 <= i < r@.len() ==> #[trigger] r@[i] == (Pos {
                x: (src.x + i * sign(dst.x - src.x)) as usize,
                y: src.y,
            }),
        src.x == dst.x ==> forall|i: int|
            0 <= i < r@.len() ==> #[trigger] r@[i] == (Pos {
                x: src.x,
                y: (src.y + i * sign(dst.y - src.y)) as usize,
            }),
        forall|i: int| 0 <= i < r@.len() ==> in_canvas(#[trigger] r@[i]),
        final(buf).chars@ == old(buf).chars@,
        final(buf).cursor == Some(dst),
        final(buf).edits@ == stage(old(buf).grid(), old(buf).edits@, line_writes(src, dst, *symbols)),
        final(buf).wf(),
{
    let pts = line_points(src, dst);
    let c = stroke(src, dst, symbols);
    let mut ws: Vec<Write> = Vec::new();
    let n = pts.len() - 1;
    let ghost body = pts@.drop_last();
    let mut i: usize = 0;
    while i < n
        invariant
            n == pts@.len() - 1,
            body == pts@.drop_last(),
            i <= n,
            c == stroke_glyph(slope_spec(src, dst), *symbols),
            ws@.len() == i,
            forall|k: int| 0 <= k < pts@.len() ==> in_canvas(#[trigger] pts@[k]),
            forall|k: int|
                0 <= k < i ==> #[trigger] ws@[k] == (if k == 0 {
                    (body[k], symbols.plus, true)
                } else {
                    (body[k], c, false)
                }),
        decreases n - i,
    {
        let p = pts[i];
        if i == 0 {
            ws.push((p, symbols.plus, true));
        } else {
            ws.push((p, c, false));
        }
        i += 1;
    }
    ws.push((dst, symbols.plus, true));
    assert(ws@ =~= line_writes(src, dst, *symbols));
    assert forall|k: int| 0 <= k < ws@.len() implies in_canvas((#[trigger] ws@[k]).0) by {
        if k < n {
            assert(ws@[k].0 == pts@[k]);
        }
    }
    apply_writes(buf, &ws);
    buf.set_cursor(dst);
    pts
}

/// The elbow of a right-angled connector: it continues along an existing
/// horizontal stroke at `dst`, and otherwise turns at `dst`'s row.
pub open spec fn snap90_spec(g: Seq<Seq<char>>, src: Pos, dst: Pos, s: Symbols) -> Pos {
    if crate::buffer::get_cell(g, dst) == Some(s.hline) {
        Pos { x: dst.x, y: src.y }
    } else {
        Pos { x: src.x, y: dst.y }
    }
}

/// Returns the elbow point of a right-angled connector from `src` to `dst`.
pub fn snap90(buf: &Buffer, src: Pos, dst: Pos, symbols: &Symbols) -> (r: Pos)
    ensures
        r == snap90_spec(buf.grid(), src, dst, *symbols),
{
    if buf.getv(dst) == Some(symbols.hline) {
        Pos { x: dst.x, y: src.y }
    } else {
        Pos { x: src.x, y: dst.y }
    }
}

} // verus!

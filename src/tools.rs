use vstd::prelude::*;

use crate::buffer::{apply_edits, glyph_of, visible_in, Buffer, Cell};
use crate::geometry::{in_canvas, line_slope, slope_spec, snap45, snap45_spec, Pos};
use crate::glyphs::{is_whitespace, is_ws, Symbols, SP};
use crate::geometry::COORD_LIMIT;
use crate::junctions::fixup;
use crate::raster::{
    apply_writes, draw_line, drawn, min_int, line_points, forced_cells, lemma_stage_concat, line_cells, line_writes, snap90, snap90_spec, stage,
    Write,
};
use crate::router::{draw_path, is_route, path_writes, route_of, routable, search_limit, RouteError};

verus! {

/// How a connector travels from its source to its destination.
#[derive(Clone, Copy, Debug, PartialEq, Eq, Structural)]
pub enum PathMode {
    /// One straight line.
    Straight,
    /// Two lines meeting at a right angle.
    Snap90,
    /// A diagonal and a straight line.
    Snap45,
    /// The cheapest walk around existing content.
    Routed,
}

/// The elbow of a two-line connector.
pub open spec fn elbow(g: Seq<Seq<char>>, src: Pos, dst: Pos, mode: PathMode, s: Symbols) -> Pos {
    match mode {
        PathMode::Snap90 => snap90_spec(g, src, dst, s),
        PathMode::Snap45 => snap45_spec(src, dst),
        _ => dst,
    }
}

/// The writes of a connector that is not routed.
pub open spec fn stroke_writes(g: Seq<Seq<char>>, src: Pos, dst: Pos, mode: PathMode, s: Symbols) -> Seq<
    Write,
> {
    if mode == PathMode::Straight {
        line_writes(src, dst, s)
    } else {
        let mid = elbow(g, src, dst, mode, s);
        line_writes(src, mid, s) + line_writes(mid, dst, s)
    }
}

/// The cells of a connector that is not routed.
pub open spec fn stroke_cells(g: Seq<Seq<char>>, src: Pos, dst: Pos, mode: PathMode, s: Symbols) -> Seq<
    Pos,
> {
    if mode == PathMode::Straight {
        line_cells(src, dst)
    } else {
        let mid = elbow(g, src, dst, mode, s);
        line_cells(src, mid) + line_cells(mid, dst)
    }
}

/// The anchors of a connector that is not routed: the ends of its lines,
/// which keep their junction glyph.
pub open spec fn stroke_anchors(g: Seq<Seq<char>>, src: Pos, dst: Pos, mode: PathMode, s: Symbols) -> Seq<
    Pos,
> {
    if mode == PathMode::Straight {
        seq![src, dst]
    } else {
        seq![src, elbow(g, src, dst, mode, s), dst]
    }
}

fn anchors_of(buf: &Buffer, src: Pos, dst: Pos, mode: PathMode, symbols: &Symbols) -> (r: Vec<Pos>)
    requires
        mode != PathMode::Routed,
    ensures
        r@ == stroke_anchors(buf.grid(), src, dst, mode, *symbols),
{
    if mode == PathMode::Straight {
        let r = vec![src, dst];
        assert(r@ =~= seq![src, dst]);
        r
    } else {
        let mid = if mode == PathMode::Snap90 {
            snap90(buf, src, dst, symbols)
        } else {
            snap45(src, dst)
        };
        let r = vec![src, mid, dst];
        assert(r@ =~= seq![src, mid, dst]);
        r
    }
}

/// Draw the strokes of a connector that is not routed; returns its cells.
fn draw_strokes(buf: &mut Buffer, src: Pos, dst: Pos, mode: PathMode, symbols: &Symbols) -> (r: Vec<Pos>)
    requires
        old(buf).wf(),
        in_canvas(src),
        in_canvas(dst),
        mode != PathMode::Routed,
    ensures
        r@ == stroke_cells(old(buf).grid(), src, dst, mode, *symbols),
        r@.len() >= 1,
        r@.last() == dst,
        forall|i: int| 0 <= i < r@.len() ==> in_canvas(#[trigger] r@[i]),
        final(buf).wf(),
        final(buf).chars@ == old(buf).chars@,
        final(buf).cursor == Some(dst),
        final(buf).edits@ == stage(old(buf).grid(), old(buf).edits@, stroke_writes(old(buf).grid(), src, dst, mode, *symbols)),
{
    let ghost g = buf.grid();
    let ghost es = buf.edits@;
    if mode == PathMode::Straight {
        return draw_line(buf, src, dst, symbols);
    }
    let mid = if mode == PathMode::Snap90 {
        snap90(buf, src, dst, symbols)
    } else {
        snap45(src, dst)
    };
    let mut pts = draw_line(buf, src, mid, symbols);
    let more = draw_line(buf, mid, dst, symbols);
    let ghost head = pts@;
    let mut i: usize = 0;
    while i < more.len()
        invariant
            i <= more@.len(),
            pts@ == head + more@.take(i as int),
            forall|k: int| 0 <= k < head.len() ==> in_canvas(#[trigger] head[k]),
            forall|k: int| 0 <= k < more@.len() ==> in_canvas(#[trigger] more@[k]),
        decreases more@.len() - i,
    {
        pts.push(more[i]);
        assert(more@.take(i + 1) =~= more@.take(i as int).push(more@[i as int]));
        i += 1;
    }
    assert(more@.take(i as int) =~= more@);
    proof {
        lemma_stage_concat(g, es, line_writes(src, mid, *symbols), line_writes(mid, dst, *symbols));
        assert forall|k: int| 0 <= k < pts@.len() implies in_canvas(#[trigger] pts@[k]) by {
            if k < head.len() {
                assert(pts@[k] == head[k]);
            } else {
                assert(pts@[k] == more@[k - head.len()]);
            }
        }
    }
    pts
}

/// Draw a line connector from `src` to `dst` in `path_mode`, join its cells,
/// other than the junctions at the ends of its lines, to their neighbours, and
/// move the cursor to `dst`. Returns the connector's cells. A routed connector
/// fails only when the search area is too large, and then the buffer is left
/// as it was.
pub fn draw_line_on_buffer(buf: &mut Buffer, src: Pos, dst: Pos, path_mode: PathMode, symbols: &Symbols) -> (r:
    Result<Vec<Pos>, RouteError>)
    requires
        old(buf).wf(),
        in_canvas(src),
        in_canvas(dst),
    ensures
        final(buf).wf(),
        final(buf).chars@ == old(buf).chars@,
        r is Err ==> path_mode == PathMode::Routed && final(buf).edits@ == old(buf).edits@
            && final(buf).cursor == old(buf).cursor,
        r == Err::<Vec<Pos>, RouteError>(RouteError::TooLarge) <==> path_mode == PathMode::Routed
            && !routable(old(buf).grid(), src, dst),
        r is Err ==> !routable(old(buf).grid(), src, dst),
        path_mode != PathMode::Routed ==> (r matches Ok(p) && p@ == stroke_cells(
            old(buf).grid(),
            src,
            dst,
            path_mode,
            *symbols,
        ) && final(buf).cursor == Some(dst) && final(buf).edits@ == drawn(
            old(buf).grid(),
            old(buf).edits@,
            stroke_writes(old(buf).grid(), src, dst, path_mode, *symbols),
            p@,
            stroke_anchors(old(buf).grid(), src, dst, path_mode, *symbols),
            *symbols,
        )),
        path_mode == PathMode::Routed && routable(old(buf).grid(), src, dst) ==> (r matches Ok(p) && {
            &&& p@ == route_of(old(buf).grid(), src, dst)
            &&& is_route(p@, src, dst, search_limit(old(buf).grid(), src, dst))
            &&& final(buf).cursor == Some(dst)
            &&& final(buf).edits@ == drawn(
                old(buf).grid(),
                old(buf).edits@,
                path_writes(p@, *symbols),
                p@,
                forced_cells(path_writes(p@, *symbols)),
                *symbols,
            )
        }),
{
    if path_mode == PathMode::Routed {
        return draw_path(buf, src, dst, symbols);
    }
    let keep = anchors_of(buf, src, dst, path_mode, symbols);
    let points = draw_strokes(buf, src, dst, path_mode, symbols);
    fixup(buf, &points, &keep, symbols);
    Ok(points)
}

/// The arrow head for a connector that arrives at `dst` from `src`. A straight
/// arrival points the way it travels unless it runs into content beside the
/// head, and then turns toward it; a diagonal one picks the side that holds
/// content.
pub open spec fn tip_spec(g: Seq<Seq<char>>, src: Pos, dst: Pos, s: Symbols) -> char {
    let sl = slope_spec(src, dst);
    let north = dst.y > 0 && visible_in(g, Pos { x: dst.x, y: (dst.y - 1) as usize });
    let east = visible_in(g, Pos { x: (dst.x + 1) as usize, y: dst.y });
    let south = visible_in(g, Pos { x: dst.x, y: (dst.y + 1) as usize });
    let west = dst.x > 0 && visible_in(g, Pos { x: (dst.x - 1) as usize, y: dst.y });
    if sl == (0int, -1int) {
        if north || (west && east) { s.n } else if west { s.w } else if east { s.e } else { s.n }
    } else if sl == (1int, 0int) {
        if east || (north && south) { s.e } else if north { s.n } else if south { s.s } else { s.e }
    } else if sl == (0int, 1int) {
        if south || (east && west) { s.s } else if east { s.e } else if west { s.w } else { s.s }
    } else if sl == (-1int, 0int) {
        if west || (south && north) { s.w } else if south { s.s } else if north { s.n } else { s.w }
    } else if sl.0 > 0 && sl.1 > 0 {
        if east { s.e } else { s.s }
    } else if sl.0 > 0 && sl.1 < 0 {
        if east { s.e } else { s.n }
    } else if sl.0 < 0 && sl.1 > 0 {
        if dst.x == 0 { s.s } else if west { s.w } else { s.s }
    } else if sl.0 < 0 && sl.1 < 0 {
        if dst.x == 0 { s.n } else if west { s.w } else { s.n }
    } else {
        s.plus
    }
}

/// Write, forced, the arrow head for a connector arriving at `dst` from `src`.
pub fn draw_arrow_tip(buf: &mut Buffer, src: Pos, dst: Pos, symbols: &Symbols)
    requires
        old(buf).wf(),
        in_canvas(src),
        in_canvas(dst),
    ensures
        final(buf).wf(),
        final(buf).chars@ == old(buf).chars@,
        final(buf).cursor == old(buf).cursor,
        final(buf).edits@ == old(buf).edits@.push(
            Cell { pos: dst, c: tip_spec(old(buf).grid(), src, dst, *symbols) },
        ),
{
    let north = dst.y > 0 && buf.visible(Pos { x: dst.x, y: dst.y - 1 });
    let east = buf.visible(Pos { x: dst.x + 1, y: dst.y });
    let south = buf.visible(Pos { x: dst.x, y: dst.y + 1 });
    let west = dst.x > 0 && buf.visible(Pos { x: dst.x - 1, y: dst.y });
    let (x, y) = line_slope(src, dst);
    let tip = if x == 0 && y == -1 {
        if north || (west && east) { symbols.n } else if west { symbols.w } else if east { symbols.e } else { symbols.n }
    } else if x == 1 && y == 0 {
        if east || (north && south) { symbols.e } else if north { symbols.n } else if south { symbols.s } else { symbols.e }
    } else if x == 0 && y == 1 {
        if south || (east && west) { symbols.s } else if east { symbols.e } else if west { symbols.w } else { symbols.s }
    } else if x == -1 && y == 0 {
        if west || (south && north) { symbols.w } else if south { symbols.s } else if north { symbols.n } else { symbols.w }
    } else if x > 0 && y > 0 {
        if east { symbols.e } else { symbols.s }
    } else if x > 0 && y < 0 {
        if east { symbols.e } else { symbols.n }
    } else if x < 0 && y > 0 {
        if dst.x == 0 { symbols.s } else if west { symbols.w } else { symbols.s }
    } else if x < 0 && y < 0 {
        if dst.x == 0 { symbols.n } else if west { symbols.w } else { symbols.n }
    } else {
        symbols.plus
    };
    buf.setv(true, dst, tip);
}

/// The point an arrow's last stroke leaves from, in modes that are not routed.
pub open spec fn tip_from(g: Seq<Seq<char>>, src: Pos, dst: Pos, mode: PathMode, s: Symbols) -> Pos {
    let mid = elbow(g, src, dst, mode, s);
    if mode != PathMode::Straight && mid != dst {
        mid
    } else {
        src
    }
}

/// The mode in which an arrow that is not routed draws its strokes: a single
/// line where the elbow falls on the destination.
pub open spec fn arrow_mode(g: Seq<Seq<char>>, src: Pos, dst: Pos, mode: PathMode, s: Symbols) -> PathMode {
    if mode != PathMode::Straight && elbow(g, src, dst, mode, s) != dst {
        mode
    } else {
        PathMode::Straight
    }
}

/// The point before the last one of a routed path.
pub open spec fn penultimate(p: Seq<Pos>, src: Pos) -> Pos {
    if p.len() >= 2 {
        p[p.len() - 2]
    } else {
        src
    }
}

/// Draw an arrow from `src` to `dst` in `path_mode`: the connector, its cells
/// joined to their neighbours (not its junctions nor the head), then the head,
/// forced. Moves the cursor to `dst` and returns the connector's cells. A
/// routed arrow fails only when the search area is too large, and then the
/// buffer is left as it was.
pub fn draw_arrow_on_buffer(buf: &mut Buffer, src: Pos, dst: Pos, path_mode: PathMode, symbols: &Symbols) -> (r:
    Result<Vec<Pos>, RouteError>)
    requires
        old(buf).wf(),
        in_canvas(src),
        in_canvas(dst),
    ensures
        final(buf).wf(),
        final(buf).chars@ == old(buf).chars@,
        r is Err ==> path_mode == PathMode::Routed && final(buf).edits@ == old(buf).edits@
            && final(buf).cursor == old(buf).cursor,
        r == Err::<Vec<Pos>, RouteError>(RouteError::TooLarge) <==> path_mode == PathMode::Routed
            && !routable(old(buf).grid(), src, dst),
        r is Err ==> !routable(old(buf).grid(), src, dst),
        path_mode != PathMode::Routed ==> ({
            let g = old(buf).grid();
            let mode = arrow_mode(g, src, dst, path_mode, *symbols);
            &&& r matches Ok(p)
            &&& p@ == stroke_cells(g, src, dst, mode, *symbols)
            &&& final(buf).cursor == Some(dst)
            &&& final(buf).edits@ == drawn(
                g,
                old(buf).edits@,
                stroke_writes(g, src, dst, mode, *symbols),
                p@,
                stroke_anchors(g, src, dst, mode, *symbols),
                *symbols,
            ).push(Cell { pos: dst, c: tip_spec(g, tip_from(g, src, dst, path_mode, *symbols), dst, *symbols) })
        }),
        path_mode == PathMode::Routed && routable(old(buf).grid(), src, dst) ==> (r matches Ok(p) && {
            let g = old(buf).grid();
            &&& p@ == route_of(g, src, dst)
            &&& is_route(p@, src, dst, search_limit(g, src, dst))
            &&& final(buf).cursor == Some(dst)
            &&& final(buf).edits@ == drawn(
                g,
                old(buf).edits@,
                path_writes(p@, *symbols),
                p@,
                forced_cells(path_writes(p@, *symbols)),
                *symbols,
            ).push(Cell { pos: dst, c: tip_spec(g, penultimate(p@, src), dst, *symbols) })
        }),
{
    let ghost g = buf.grid();
    if path_mode == PathMode::Routed {
        let path = draw_path(buf, src, dst, symbols)?;
        let from = if path.len() >= 2 {
            path[path.len() - 2]
        } else {
            src
        };
        proof {
            if path@.len() >= 2 {
                assert(path@[path@.len() - 2].x < search_limit(g, src, dst).0);
            }
        }
        draw_arrow_tip(buf, from, dst, symbols);
        return Ok(path);
    }
    let mid = if path_mode == PathMode::Snap90 {
        snap90(buf, src, dst, symbols)
    } else if path_mode == PathMode::Snap45 {
        snap45(src, dst)
    } else {
        dst
    };
    let (mode, from) = if path_mode != PathMode::Straight && (mid.x != dst.x || mid.y != dst.y) {
        (path_mode, mid)
    } else {
        (PathMode::Straight, src)
    };
    let keep = anchors_of(buf, src, dst, mode, symbols);
    let points = draw_strokes(buf, src, dst, mode, symbols);
    fixup(buf, &points, &keep, symbols);
    draw_arrow_tip(buf, from, dst, symbols);
    Ok(points)
}

/// The writes for one side of a box, walked from corner `a` to corner `b`:
/// the corner glyph at `a`, then the side's stroke, stopping short of `b`.
pub open spec fn side_writes(a: Pos, b: Pos, corner: char, stroke: char) -> Seq<Write> {
    let body = line_cells(a, b).drop_last();
    Seq::new(body.len(), |i: int| (body[i], if i == 0 { corner } else { stroke }, false))
}

/// The writes that draw the outline of the box with corners `tl` and `br`,
/// walking its sides clockwise from the top left: a corner glyph where each
/// side starts, horizontal strokes along the top and bottom, vertical strokes
/// along the sides, none of them forced.
pub open spec fn box_writes(tl: Pos, br: Pos, s: Symbols) -> Seq<Write> {
    let tr = Pos { x: br.x, y: tl.y };
    let bl = Pos { x: tl.x, y: br.y };
    side_writes(tl, tr, s.tlcorn, s.hline) + side_writes(tr, br, s.trcorn, s.vline) + side_writes(
        br,
        bl,
        s.brcorn,
        s.hline,
    ) + side_writes(bl, tl, s.blcorn, s.vline)
}

/// The cells of the outline of the box with corners `tl` and `br`.
pub open spec fn box_outline(tl: Pos, br: Pos, s: Symbols) -> Seq<Pos> {
    box_writes(tl, br, s).map_values(|w: Write| w.0)
}

pub open spec fn top_left(a: Pos, b: Pos) -> Pos {
    Pos { x: if a.x <= b.x { a.x } else { b.x }, y: if a.y <= b.y { a.y } else { b.y } }
}

pub open spec fn bottom_right(a: Pos, b: Pos) -> Pos {
    Pos { x: if a.x >= b.x { a.x } else { b.x }, y: if a.y >= b.y { a.y } else { b.y } }
}

/// Append the writes for the side from `a` to `b` to `ws`.
fn side_plan(ws: &mut Vec<Write>, a: Pos, b: Pos, corner: char, stroke: char)
    requires
        in_canvas(a),
        in_canvas(b),
        forall|i: int| 0 <= i < old(ws)@.len() ==> in_canvas((#[trigger] old(ws)@[i]).0),
    ensures
        final(ws)@ == old(ws)@ + side_writes(a, b, corner, stroke),
        forall|i: int| 0 <= i < final(ws)@.len() ==> in_canvas((#[trigger] final(ws)@[i]).0),
{
    let pts = line_points(a, b);
    let n = pts.len() - 1;
    let ghost body = pts@.drop_last();
    let mut i: usize = 0;
    while i < n
        invariant
            n == pts@.len() - 1,
            body == pts@.drop_last(),
            pts@ == line_cells(a, b),
            i <= n,
            ws@ == old(ws)@ + side_writes(a, b, corner, stroke).take(i as int),
            forall|k: int| 0 <= k < pts@.len() ==> in_canvas(#[trigger] pts@[k]),
            forall|k: int| 0 <= k < ws@.len() ==> in_canvas((#[trigger] ws@[k]).0),
        decreases n - i,
    {
        let p = pts[i];
        let w: Write = (p, if i == 0 { corner } else { stroke }, false);
        let ghost before = ws@;
        ws.push(w);
        assert(side_writes(a, b, corner, stroke).take(i + 1) =~= side_writes(a, b, corner, stroke).take(
            i as int,
        ).push(w));
        assert(ws@ =~= old(ws)@ + side_writes(a, b, corner, stroke).take(i + 1));
        i += 1;
    }
    assert(side_writes(a, b, corner, stroke).take(n as int) =~= side_writes(a, b, corner, stroke));
}

fn box_plan(tl: Pos, br: Pos, symbols: &Symbols) -> (r: Vec<Write>)
    requires
        in_canvas(tl),
        in_canvas(br),
    ensures
        r@ == box_writes(tl, br, *symbols),
        forall|i: int| 0 <= i < r@.len() ==> in_canvas((#[trigger] r@[i]).0),
{
    let tr = Pos { x: br.x, y: tl.y };
    let bl = Pos { x: tl.x, y: br.y };
    let mut ws: Vec<Write> = Vec::new();
    side_plan(&mut ws, tl, tr, symbols.tlcorn, symbols.hline);
    side_plan(&mut ws, tr, br, symbols.trcorn, symbols.vline);
    side_plan(&mut ws, br, bl, symbols.brcorn, symbols.hline);
    side_plan(&mut ws, bl, tl, symbols.blcorn, symbols.vline);
    assert(ws@ =~= box_writes(tl, br, *symbols));
    ws
}

/// Draw the outline of the box with opposite corners `src` and `dst`, join it
/// to its neighbours, and move the cursor to `dst`. A box one cell wide or tall
/// cannot be drawn: a non-forced marker glyph goes to `src` instead.
pub fn draw_box_on_buffer(buf: &mut Buffer, src: Pos, dst: Pos, symbols: &Symbols)
    requires
        old(buf).wf(),
        in_canvas(src),
        in_canvas(dst),
    ensures
        final(buf).wf(),
        final(buf).chars@ == old(buf).chars@,
        ({
            let tl = top_left(src, dst);
            let br = bottom_right(src, dst);
            let g = old(buf).grid();
            if tl.x == br.x || tl.y == br.y {
                &&& final(buf).edits@ == crate::buffer::set_edits(g, old(buf).edits@, false, src, symbols.ubox)
                &&& final(buf).cursor == old(buf).cursor
            } else {
                &&& final(buf).edits@ == drawn(
                    g,
                    old(buf).edits@,
                    box_writes(tl, br, *symbols),
                    box_outline(tl, br, *symbols),
                    Seq::empty(),
                    *symbols,
                )
                &&& final(buf).cursor == Some(dst)
            }
        }),
{
    let tl = Pos { x: if src.x <= dst.x { src.x } else { dst.x }, y: if src.y <= dst.y { src.y } else { dst.y } };
    let br = Pos { x: if src.x >= dst.x { src.x } else { dst.x }, y: if src.y >= dst.y { src.y } else { dst.y } };
    if tl.x == br.x || tl.y == br.y {
        buf.setv(false, src, symbols.ubox);
        return;
    }
    let ws = box_plan(tl, br, symbols);
    let mut outline: Vec<Pos> = Vec::new();
    let mut i: usize = 0;
    while i < ws.len()
        invariant
            i <= ws@.len(),
            outline@ =~= ws@.take(i as int).map_values(|w: Write| w.0),
        decreases ws@.len() - i,
    {
        outline.push(ws[i].0);
        i += 1;
    }
    assert(ws@.take(i as int) =~= ws@);
    apply_writes(buf, &ws);
    let keep: Vec<Pos> = Vec::new();
    fixup(buf, &outline, &keep, symbols);
    buf.set_cursor(dst);
}

/// The visible cells of the row `r`, numbered `y`, at columns `lo` up to `k`,
/// left to right.
pub open spec fn row_hits(r: Seq<char>, y: usize, lo: usize, k: usize) -> Seq<Cell>
    decreases k - lo,
{
    if k <= lo {
        Seq::empty()
    } else {
        let x = (k - 1) as usize;
        let rest = row_hits(r, y, lo, x);
        if !is_ws(r[x as int]) {
            rest.push(Cell { pos: Pos { x, y }, c: r[x as int] })
        } else {
            rest
        }
    }
}

/// The visible committed cells inside the box `tl`..`br` (both included), in
/// rows `tl.y` up to `k`, row by row.
pub open spec fn rows_hits(g: Seq<Seq<char>>, tl: Pos, br: Pos, k: int) -> Seq<Cell>
    decreases k - tl.y,
{
    if k <= tl.y {
        Seq::empty()
    } else {
        rows_hits(g, tl, br, k - 1) + row_hits(g[k - 1], (k - 1) as usize, tl.x, min_int(br.x + 1, g[k - 1].len() as int) as usize)
    }
}

/// True iff `p` lies in the box `tl`..`br`, both included.
pub open spec fn in_box(p: Pos, tl: Pos, br: Pos) -> bool {
    tl.x <= p.x <= br.x && tl.y <= p.y <= br.y
}

/// The visible pending writes inside the box `tl`..`br`, in order.
pub open spec fn edit_hits(es: Seq<Cell>, tl: Pos, br: Pos) -> Seq<Cell>
    decreases es.len(),
{
    if es.len() == 0 {
        Seq::empty()
    } else {
        let rest = edit_hits(es.drop_last(), tl, br);
        let e = es.last();
        if in_box(e.pos, tl, br) && !is_ws(e.c) {
            rest.push(e)
        } else {
            rest
        }
    }
}

/// The visible cells in the box with corners `a` and `b`: committed ones row
/// by row, then pending ones in the order they were staged.
pub open spec fn visible_spec(g: Seq<Seq<char>>, es: Seq<Cell>, a: Pos, b: Pos) -> Seq<Cell> {
    let tl = top_left(a, b);
    let br = bottom_right(a, b);
    rows_hits(g, tl, br, min_int(br.y + 1, g.len() as int)) + edit_hits(es, tl, br)
}

/// Append the visible cells of `row`, numbered `y`, at columns `lo` up to `hi`.
fn row_visible(row: &Vec<char>, y: usize, lo: usize, hi: usize, out: &mut Vec<Cell>)
    requires
        hi <= row@.len(),
        hi <= COORD_LIMIT,
        y < COORD_LIMIT,
        forall|i: int| 0 <= i < old(out)@.len() ==> in_canvas((#[trigger] old(out)@[i]).pos),
    ensures
        final(out)@ == old(out)@ + row_hits(row@, y, lo, hi),
        forall|i: int| 0 <= i < final(out)@.len() ==> in_canvas((#[trigger] final(out)@[i]).pos),
{
    if lo >= hi {
        assert(row_hits(row@, y, lo, hi) =~= Seq::<Cell>::empty());
        assert(out@ =~= old(out)@ + Seq::<Cell>::empty());
        return;
    }
    let mut x: usize = lo;
    while x < hi
        invariant
            lo <= x <= hi,
            hi <= row@.len(),
            hi <= COORD_LIMIT,
            y < COORD_LIMIT,
            out@ == old(out)@ + row_hits(row@, y, lo, x),
            forall|i: int| 0 <= i < out@.len() ==> in_canvas((#[trigger] out@[i]).pos),
        decreases hi - x,
    {
        let c = glyph_of(row, x);
        if !is_whitespace(c) {
            out.push(Cell { pos: Pos { x, y }, c });
        }
        assert(out@ =~= old(out)@ + row_hits(row@, y, lo, (x + 1) as usize));
        x += 1;
    }
}

/// Returns the cells holding non-whitespace glyphs, committed or pending, in
/// the box with corners `a` and `b`.
pub fn visible_cells(buf: &Buffer, a: Pos, b: Pos) -> (r: Vec<Cell>)
    requires
        buf.wf(),
        in_canvas(a),
        in_canvas(b),
    ensures
        r@ == visible_spec(buf.grid(), buf.edits@, a, b),
        forall|i: int| 0 <= i < r@.len() ==> in_canvas((#[trigger] r@[i]).pos),
{
    let ghost g = buf.grid();
    let tl = Pos { x: if a.x <= b.x { a.x } else { b.x }, y: if a.y <= b.y { a.y } else { b.y } };
    let br = Pos { x: if a.x >= b.x { a.x } else { b.x }, y: if a.y >= b.y { a.y } else { b.y } };
    let mut out: Vec<Cell> = Vec::new();
    let ylim: usize = if br.y + 1 <= buf.chars.len() { br.y + 1 } else { buf.chars.len() };
    let mut y: usize = tl.y;
    if y < ylim {
        while y < ylim
            invariant
                g == buf.grid(),
                tl.y <= y <= ylim,
                ylim <= g.len(),
                ylim <= br.y + 1,
                in_canvas(br),
                out@ == rows_hits(g, tl, br, y as int),
                forall|i: int| 0 <= i < out@.len() ==> in_canvas((#[trigger] out@[i]).pos),
            decreases ylim - y,
        {
            let row = &buf.chars[y];
            assert(row@ == g[y as int]);
            let xlim: usize = if br.x + 1 <= row.len() { br.x + 1 } else { row.len() };
            let ghost before = out@;
            row_visible(row, y, tl.x, xlim, &mut out);
            assert(out@ == before + row_hits(g[y as int], y, tl.x, xlim));
            assert(xlim as int == min_int(br.x + 1, g[y as int].len() as int));
            y += 1;
        }
    }
    assert(out@ == rows_hits(g, tl, br, min_int(br.y + 1, g.len() as int)));
    let ghost base = out@;
    let ghost es = buf.edits@;
    let mut i: usize = 0;
    while i < buf.edits.len()
        invariant
            buf.wf(),
            es == buf.edits@,
            i <= es.len(),
            out@ == base + edit_hits(es.take(i as int), tl, br),
            forall|k: int| 0 <= k < out@.len() ==> in_canvas((#[trigger] out@[k]).pos),
        decreases es.len() - i,
    {
        let e = buf.edits[i];
        assert(es.take(i + 1).drop_last() =~= es.take(i as int));
        assert(in_canvas(es[i as int].pos));
        if tl.x <= e.pos.x && e.pos.x <= br.x && tl.y <= e.pos.y && e.pos.y <= br.y && !is_whitespace(e.c) {
            out.push(e);
        }
        i += 1;
    }
    assert(es.take(i as int) =~= es);
    out
}

/// Blank, forced, every visible cell in the box with corners `src` and `dst`,
/// and move the cursor to `dst`.
pub fn erase_on_buffer(buf: &mut Buffer, src: Pos, dst: Pos)
    requires
        old(buf).wf(),
        in_canvas(src),
        in_canvas(dst),
    ensures
        final(buf).wf(),
        final(buf).chars@ == old(buf).chars@,
        final(buf).cursor == Some(dst),
        final(buf).edits@ == old(buf).edits@ + visible_spec(old(buf).grid(), old(buf).edits@, src, dst).map_values(
            |c: Cell| Cell { pos: c.pos, c: SP },
        ),
{
    let cells = visible_cells(buf, src, dst);
    let ghost e0 = buf.edits@;
    let mut i: usize = 0;
    while i < cells.len()
        invariant
            i <= cells@.len(),
            buf.wf(),
            buf.chars@ == old(buf).chars@,
            buf.edits@ == e0 + cells@.take(i as int).map_values(|c: Cell| Cell { pos: c.pos, c: SP }),
            forall|k: int| 0 <= k < cells@.len() ==> in_canvas((#[trigger] cells@[k]).pos),
        decreases cells@.len() - i,
    {
        let cell = cells[i];
        assert(in_canvas(cells@[i as int].pos));
        buf.setv(true, cell.pos, SP);
        assert(cells@.take(i + 1).map_values(|c: Cell| Cell { pos: c.pos, c: SP }) =~= cells@.take(
            i as int,
        ).map_values(|c: Cell| Cell { pos: c.pos, c: SP }).push(Cell { pos: cell.pos, c: SP }));
        i += 1;
    }
    assert(cells@.take(i as int) =~= cells@);
    buf.set_cursor(dst);
}

/// Where a cell at `p` lands when content moves from `from` to `to`: shifted
/// by the difference, stopping at column and row zero; `None` past the canvas.
pub open spec fn moved(p: Pos, from: Pos, to: Pos) -> Option<Pos> {
    let x = p.x + to.x - from.x;
    let y = p.y + to.y - from.y;
    let q = Pos { x: (if x < 0 { 0 } else { x }) as usize, y: (if y < 0 { 0 } else { y }) as usize };
    if x < COORD_LIMIT && y < COORD_LIMIT {
        Some(q)
    } else {
        None
    }
}

/// The forced writes that put the cells `cs` at their new places.
pub open spec fn move_writes(cs: Seq<Cell>, from: Pos, to: Pos) -> Seq<Cell>
    decreases cs.len(),
{
    if cs.len() == 0 {
        Seq::empty()
    } else {
        let rest = move_writes(cs.drop_last(), from, to);
        let c = cs.last();
        match moved(c.pos, from, to) {
            Some(q) => rest.push(Cell { pos: q, c: c.c }),
            None => rest,
        }
    }
}

fn shift(v: usize, from: usize, to: usize) -> (r: Option<usize>)
    requires
        v < COORD_LIMIT,
        from < COORD_LIMIT,
        to < COORD_LIMIT,
    ensures
        v + to - from >= COORD_LIMIT ==> r is None,
        v + to - from < COORD_LIMIT ==> r == Some((if v + to - from < 0 { 0 } else { v + to - from }) as usize),
{
    let s = v + to;
    if s >= from {
        if s - from < COORD_LIMIT {
            Some(s - from)
        } else {
            None
        }
    } else {
        Some(0)
    }
}

/// Move the visible content of the box with corners `a` and `b` by the offset
/// from `from` to `to`: its cells are blanked, forced, then written at their
/// new places, forced, so they win over whatever is there. Content shifted
/// past the canvas is dropped. Moves the cursor to `to`.
pub fn move_on_buffer(buf: &mut Buffer, a: Pos, b: Pos, from: Pos, to: Pos)
    requires
        old(buf).wf(),
        in_canvas(a),
        in_canvas(b),
        in_canvas(from),
        in_canvas(to),
    ensures
        final(buf).wf(),
        final(buf).chars@ == old(buf).chars@,
        final(buf).cursor == Some(to),
        ({
            let cs = visible_spec(old(buf).grid(), old(buf).edits@, a, b);
            final(buf).edits@ == old(buf).edits@ + cs.map_values(|c: Cell| Cell { pos: c.pos, c: SP })
                + move_writes(cs, from, to)
        }),
{
    let cells = visible_cells(buf, a, b);
    let ghost e0 = buf.edits@;
    let mut i: usize = 0;
    while i < cells.len()
        invariant
            i <= cells@.len(),
            buf.wf(),
            buf.chars@ == old(buf).chars@,
            buf.edits@ == e0 + cells@.take(i as int).map_values(|c: Cell| Cell { pos: c.pos, c: SP }),
            forall|k: int| 0 <= k < cells@.len() ==> in_canvas((#[trigger] cells@[k]).pos),
        decreases cells@.len() - i,
    {
        let cell = cells[i];
        assert(in_canvas(cells@[i as int].pos));
        buf.setv(true, cell.pos, SP);
        assert(cells@.take(i + 1).map_values(|c: Cell| Cell { pos: c.pos, c: SP }) =~= cells@.take(
            i as int,
        ).map_values(|c: Cell| Cell { pos: c.pos, c: SP }).push(Cell { pos: cell.pos, c: SP }));
        i += 1;
    }
    assert(cells@.take(i as int) =~= cells@);
    let ghost e1 = buf.edits@;
    let mut j: usize = 0;
    while j < cells.len()
        invariant
            j <= cells@.len(),
            buf.wf(),
            buf.chars@ == old(buf).chars@,
            in_canvas(from),
            in_canvas(to),
            buf.edits@ == e1 + move_writes(cells@.take(j as int), from, to),
            forall|k: int| 0 <= k < cells@.len() ==> in_canvas((#[trigger] cells@[k]).pos),
        decreases cells@.len() - j,
    {
        let cell = cells[j];
        assert(in_canvas(cells@[j as int].pos));
        assert(cells@.take(j + 1).drop_last() =~= cells@.take(j as int));
        let sx = shift(cell.pos.x, from.x, to.x);
        let sy = shift(cell.pos.y, from.y, to.y);
        match (sx, sy) {
            (Some(x), Some(y)) => {
                buf.setv(true, Pos { x, y }, cell.c);
            },
            _ => {},
        }
        j += 1;
    }
    assert(cells@.take(j as int) =~= cells@);
    buf.set_cursor(to);
}

/// A left-button pointer event at a cell.
#[derive(Clone, Copy, Debug, PartialEq, Eq, Structural)]
pub enum MouseEvent {
    Press(Pos),
    Hold(Pos),
    Release(Pos),
}

/// What a drawing tool does after a pointer event: preview or commit the
/// shape between two cells, or nothing.
#[derive(Clone, Copy, Debug, PartialEq, Eq, Structural)]
pub enum DragAction {
    Ignored,
    Preview(Pos, Pos),
    Commit(Pos, Pos),
}

/// The state of a drag gesture: where it started and where it is now.
#[derive(Clone, Copy, Debug, PartialEq, Eq, Structural)]
pub struct Gesture {
    pub src: Option<Pos>,
    pub dst: Option<Pos>,
}

/// The gesture and action after `e`: a press starts a gesture and previews a
/// one-cell shape; a hold previews the shape from the start; a release commits
/// it and ends the gesture.
pub open spec fn drag_step(g: Gesture, e: MouseEvent) -> (Gesture, DragAction) {
    match e {
        MouseEvent::Press(p) => (Gesture { src: Some(p), dst: Some(p) }, DragAction::Preview(p, p)),
        MouseEvent::Hold(p) => (
            Gesture { dst: Some(p), ..g },
            match g.src {
                Some(s) => DragAction::Preview(s, p),
                None => DragAction::Ignored,
            },
        ),
        MouseEvent::Release(p) => (
            Gesture { src: None, dst: None },
            match g.src {
                Some(s) => DragAction::Commit(s, p),
                None => DragAction::Ignored,
            },
        ),
    }
}

impl Gesture {
    pub fn new() -> (r: Gesture)
        ensures
            r.src is None,
            r.dst is None,
    {
        Gesture { src: None, dst: None }
    }

    /// Track a pointer event and return what to draw.
    pub fn on_mouse(&mut self, e: MouseEvent) -> (r: DragAction)
        ensures
            (*final(self), r) == drag_step(*old(self), e),
    {
        match e {
            MouseEvent::Press(p) => {
                self.src = Some(p);
                self.dst = Some(p);
                DragAction::Preview(p, p)
            },
            MouseEvent::Hold(p) => {
                self.dst = Some(p);
                match self.src {
                    Some(s) => DragAction::Preview(s, p),
                    None => DragAction::Ignored,
                }
            },
            MouseEvent::Release(p) => {
                let r = match self.src {
                    Some(s) => DragAction::Commit(s, p),
                    None => DragAction::Ignored,
                };
                self.src = None;
                self.dst = None;
                r
            },
        }
    }
}

} // verus!

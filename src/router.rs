use vstd::prelude::*;

use crate::buffer::{visible_in, Buffer};
use crate::geometry::{abs, in_canvas, slope_spec, Pos, COORD_LIMIT};
use crate::glyphs::Symbols;
use crate::junctions::fixup;
use crate::raster::{apply_writes, drawn, forced_cells, stroke, stroke_glyph, Write};

verus! {

/// Cost of one step along a row or a column.
pub const D: u64 = 1000;

/// Cost of one diagonal step: the cardinal cost times the square root of two,
/// to three decimal places.
pub const D2: u64 = 1414;

/// Extra cost for stepping onto a visible glyph, and again for a diagonal step
/// squeezed between two visible glyphs.
pub const OCCUPIED: u64 = 64000;

/// True iff `q` is one of the eight cells around `p`.
pub open spec fn adjacent(p: (usize, usize), q: (usize, usize)) -> bool {
    &&& abs(q.0 - p.0) <= 1
    &&& abs(q.1 - p.1) <= 1
    &&& q != p
}

pub open spec fn to_pos(p: (usize, usize)) -> Pos {
    Pos { x: p.0, y: p.1 }
}

/// The cost of the step from `p` to the adjacent cell `q`.
pub open spec fn step_cost(g: Seq<Seq<char>>, p: (usize, usize), q: (usize, usize)) -> int {
    let diagonal = q.0 != p.0 && q.1 != p.1;
    let base: int = if diagonal { D2 as int } else { D as int };
    let spot: int = if visible_in(g, to_pos(q)) { OCCUPIED as int } else { 0 };
    let edge: int = if diagonal && visible_in(g, Pos { x: q.0, y: p.1 }) && visible_in(
        g,
        Pos { x: p.0, y: q.1 },
    ) {
        OCCUPIED as int
    } else {
        0
    };
    base + spot + edge
}

/// True iff `q` lies in the search area below `limit`.
pub open spec fn in_area(q: (usize, usize), limit: (usize, usize)) -> bool {
    q.0 < limit.0 && q.1 < limit.1
}

/// The octile distance from `p` to `goal`, scaled up by one part in a thousand
/// so that paths closer to the goal are expanded first.
pub open spec fn heuristic_spec(p: (usize, usize), goal: (usize, usize)) -> int {
    let dx = abs(p.0 - goal.0) as int;
    let dy = abs(p.1 - goal.1) as int;
    let dist = if dx > dy {
        D * (dx - dy) + D2 * dy
    } else {
        D * (dy - dx) + D2 * dx
    };
    (dist * 1001) / 1000
}

/// Returns the estimated cost from `pos` to `goal`.
pub fn heuristic(pos: (usize, usize), goal: (usize, usize)) -> (r: u64)
    requires
        pos.0 < COORD_LIMIT,
        pos.1 < COORD_LIMIT,
        goal.0 < COORD_LIMIT,
        goal.1 < COORD_LIMIT,
    ensures
        r == heuristic_spec(pos, goal),
{
    let dx: u64 = if pos.0 >= goal.0 { (pos.0 - goal.0) as u64 } else { (goal.0 - pos.0) as u64 };
    let dy: u64 = if pos.1 >= goal.1 { (pos.1 - goal.1) as u64 } else { (goal.1 - pos.1) as u64 };
    let dist: u64 = if dx > dy {
        D * (dx - dy) + D2 * dy
    } else {
        D * (dy - dx) + D2 * dx
    };
    assert(dist <= 2000 * 0x4000_0000u64);
    dist * 1001 / 1000
}

/// Returns true iff `pos` is `goal`.
pub fn reached(pos: &(usize, usize), goal: &(usize, usize)) -> (r: bool)
    ensures
        r == (*pos == *goal),
{
    pos.0 == goal.0 && pos.1 == goal.1
}

fn step(buf: &Buffer, p: (usize, usize), q: (usize, usize)) -> (r: ((usize, usize), u64))
    requires
        adjacent(p, q),
    ensures
        r.0 == q,
        r.1 == step_cost(buf.grid(), p, q),
{
    let diagonal = q.0 != p.0 && q.1 != p.1;
    let base: u64 = if diagonal { D2 } else { D };
    let spot: u64 = if buf.visible(Pos { x: q.0, y: q.1 }) { OCCUPIED } else { 0 };
    let edge: u64 = if diagonal && buf.visible(Pos { x: q.0, y: p.1 }) && buf.visible(
        Pos { x: p.0, y: q.1 },
    ) {
        OCCUPIED
    } else {
        0
    };
    (q, base + spot + edge)
}

/// Returns the cells around `pos` inside the area below `limit`, each with the
/// cost of stepping onto it.
pub fn neighbors(buf: &Buffer, pos: (usize, usize), limit: (usize, usize)) -> (r: Vec<((usize, usize), u64)>)
    requires
        limit.0 <= COORD_LIMIT,
        limit.1 <= COORD_LIMIT,
    ensures
        forall|i: int|
            0 <= i < r@.len() ==> adjacent(pos, (#[trigger] r@[i]).0) && in_area(r@[i].0, limit)
                && r@[i].1 == step_cost(buf.grid(), pos, r@[i].0),
        in_area(pos, limit) ==> forall|q: (usize, usize)|
            adjacent(pos, q) && in_area(q, limit) ==> exists|i: int| 0 <= i < r@.len() && (#[trigger] r@[i]).0 == q,
        forall|i: int, j: int| 0 <= i < j < r@.len() ==> (#[trigger] r@[i]).0 != (#[trigger] r@[j]).0,
{
    let mut succ: Vec<((usize, usize), u64)> = Vec::new();
    if pos.0 >= limit.0 || pos.1 >= limit.1 {
        return succ;
    }
    let (x, y) = pos;
    let ghost g = buf.grid();
    let mut dy: usize = 0;
    while dy < 3
        invariant
            pos == (x, y),
            x < limit.0 <= COORD_LIMIT,
            y < limit.1 <= COORD_LIMIT,
            dy <= 3,
            forall|i: int|
                0 <= i < succ@.len() ==> adjacent(pos, (#[trigger] succ@[i]).0) && in_area(succ@[i].0, limit)
                    && succ@[i].1 == step_cost(g, pos, succ@[i].0),
            forall|q: (usize, usize)|
                adjacent(pos, q) && in_area(q, limit) && q.1 + 1 < y + dy ==> exists|i: int|
                    0 <= i < succ@.len() && (#[trigger] succ@[i]).0 == q,
            forall|i: int| 0 <= i < succ@.len() ==> (#[trigger] succ@[i]).0.1 + 1 < y + dy,
            forall|i: int, j: int| 0 <= i < j < succ@.len() ==> (#[trigger] succ@[i]).0 != (#[trigger] succ@[j]).0,
            g == buf.grid(),
        decreases 3 - dy,
    {
        let mut dx: usize = 0;
        while dx < 3
            invariant
                pos == (x, y),
                x < limit.0 <= COORD_LIMIT,
                y < limit.1 <= COORD_LIMIT,
                dy < 3,
                dx <= 3,
                forall|i: int|
                    0 <= i < succ@.len() ==> adjacent(pos, (#[trigger] succ@[i]).0) && in_area(succ@[i].0, limit)
                        && succ@[i].1 == step_cost(g, pos, succ@[i].0),
                forall|q: (usize, usize)|
                    adjacent(pos, q) && in_area(q, limit) && (q.1 + 1 < y + dy || (q.1 + 1 == y + dy
                        && q.0 + 1 < x + dx)) ==> exists|i: int|
                        0 <= i < succ@.len() && (#[trigger] succ@[i]).0 == q,
                forall|i: int|
                    0 <= i < succ@.len() ==> (#[trigger] succ@[i]).0.1 + 1 < y + dy || (succ@[i].0.1 + 1 == y
                        + dy && succ@[i].0.0 + 1 < x + dx),
                forall|i: int, j: int| 0 <= i < j < succ@.len() ==> (#[trigger] succ@[i]).0 != (#[trigger] succ@[j]).0,
                g == buf.grid(),
            decreases 3 - dx,
        {
            if x + dx >= 1 && y + dy >= 1 && !(dx == 1 && dy == 1) {
                let qx = x + dx - 1;
                let qy = y + dy - 1;
                if qx < limit.0 && qy < limit.1 {
                    let ghost before = succ@;
                    let s = step(buf, pos, (qx, qy));
                    succ.push(s);
                    assert(succ@[before.len() as int].0 == (qx, qy));
                    assert forall|q: (usize, usize)|
                        adjacent(pos, q) && in_area(q, limit) && (q.1 + 1 < y + dy || (q.1 + 1 == y + dy
                            && q.0 + 1 < x + dx + 1)) implies exists|i: int|
                            0 <= i < succ@.len() && (#[trigger] succ@[i]).0 == q by {
                        if q == (qx, qy) {
                            assert(succ@[before.len() as int].0 == q);
                        } else {
                            let i = choose|i: int| 0 <= i < before.len() && (#[trigger] before[i]).0 == q;
                            assert(succ@[i] == before[i]);
                        }
                    }
                }
            }
            dx += 1;
        }
        dy += 1;
    }
    succ
}

/// Why no connector could be routed.
#[derive(Clone, Copy, Debug, PartialEq, Eq, Structural)]
pub enum RouteError {
    /// The search ended without reaching the destination; `route` proves this
    /// cannot happen inside an area small enough to search.
    NoRoute,
    /// The search area holds more than `MAX_AREA` cells.
    TooLarge,
}

/// The largest search area, in cells, that a route is searched in.
pub const MAX_AREA: u64 = 0x100_0000_0000;

/// The search area for a route from `src` to `dst`: the content's extent and
/// both endpoints, plus one row and one column to go around, capped at
/// `COORD_LIMIT`.
pub open spec fn search_limit(g: Seq<Seq<char>>, src: Pos, dst: Pos) -> (usize, usize) {
    let w = crate::buffer::max_nat(
        crate::buffer::max_nat(crate::buffer::widest(g), (src.x + 1) as nat),
        (dst.x + 1) as nat,
    ) + 1;
    let h = crate::buffer::max_nat(
        crate::buffer::max_nat(g.len(), (src.y + 1) as nat),
        (dst.y + 1) as nat,
    ) + 1;
    (
        (if w <= COORD_LIMIT { w } else { COORD_LIMIT as nat }) as usize,
        (if h <= COORD_LIMIT { h } else { COORD_LIMIT as nat }) as usize,
    )
}

/// True iff `p` is a walk from `src` to `dst` through adjacent cells of the
/// area below `limit`.
pub open spec fn is_route(p: Seq<Pos>, src: Pos, dst: Pos, limit: (usize, usize)) -> bool {
    &&& p.len() >= 1
    &&& p[0] == src
    &&& p.last() == dst
    &&& forall|i: int| 0 <= i < p.len() ==> (#[trigger] p[i]).x < limit.0 && p[i].y < limit.1
    &&& forall|i: int|
        0 <= i < p.len() - 1 ==> adjacent((p[i].x, p[i].y), (#[trigger] p[i + 1].x, p[i + 1].y))
}

/// The walk that `pathfinding::directed::astar::astar` returns from `start` to
/// `goal` over the area below `limit` of the rows `g`, with the step costs of
/// `neighbors` and the estimate of `heuristic`.
pub uninterp spec fn astar_of(
    g: Seq<Seq<char>>,
    start: (usize, usize),
    goal: (usize, usize),
    limit: (usize, usize),
) -> Seq<(usize, usize)>;

/// Relies on `pathfinding::directed::astar::astar`: its result depends on its
/// arguments alone; a path that it returns starts at `start`, ends at a node
/// for which `success` holds (here `goal`), and steps only to successors that
/// `neighbors` offered (adjacent cells of the area). It returns `None` only
/// once every node reachable from `start` is explored, and through
/// `neighbors` every cell of the area reaches `goal`, so it returns a path.
#[verifier::external_body]
fn astar_route(buf: &Buffer, start: (usize, usize), goal: (usize, usize), limit: (usize, usize)) -> (r:
    Option<Vec<(usize, usize)>>)
    requires
        limit.0 <= COORD_LIMIT,
        limit.1 <= COORD_LIMIT,
        limit.0 * limit.1 <= MAX_AREA,
        start.0 < limit.0,
        start.1 < limit.1,
        goal.0 < limit.0,
        goal.1 < limit.1,
    ensures
        r is Some,
        r matches Some(p) ==> {
            &&& p@ == astar_of(buf.grid(), start, goal, limit)
            &&& p@.len() >= 1
            &&& p@[0] == start
            &&& p@.last() == goal
            &&& forall|i: int|
                0 <= i < p@.len() - 1 ==> adjacent(#[trigger] p@[i], p@[i + 1]) && in_area(p@[i + 1], limit)
        },
{
    pathfinding::directed::astar::astar(
        &start,
        |p: &(usize, usize)| neighbors(buf, *p, limit),
        |p: &(usize, usize)| heuristic(*p, goal),
        |p: &(usize, usize)| reached(p, &goal),
    ).map(|found| found.0)
}

/// Returns the search area for a route from `src` to `dst`.
fn area_limit(buf: &Buffer, src: Pos, dst: Pos) -> (r: (usize, usize))
    requires
        in_canvas(src),
        in_canvas(dst),
    ensures
        r == search_limit(buf.grid(), src, dst),
{
    let ghost g = buf.grid();
    let mut w: usize = 0;
    let mut i: usize = 0;
    while i < buf.chars.len()
        invariant
            i <= buf.chars@.len(),
            g == buf.grid(),
            w == (if crate::buffer::widest(g.take(i as int)) <= COORD_LIMIT {
                crate::buffer::widest(g.take(i as int))
            } else {
                COORD_LIMIT as nat
            }),
        decreases buf.chars@.len() - i,
    {
        let l = buf.chars[i].len();
        assert(g.take(i + 1).drop_last() =~= g.take(i as int));
        if l > w {
            w = if l <= COORD_LIMIT { l } else { COORD_LIMIT };
        }
        i += 1;
    }
    assert(g.take(i as int) =~= g);
    if src.x + 1 > w {
        w = src.x + 1;
    }
    if dst.x + 1 > w {
        w = dst.x + 1;
    }
    w = if w < COORD_LIMIT { w + 1 } else { COORD_LIMIT };
    let mut h: usize = if buf.chars.len() <= COORD_LIMIT { buf.chars.len() } else { COORD_LIMIT };
    if src.y + 1 > h {
        h = src.y + 1;
    }
    if dst.y + 1 > h {
        h = dst.y + 1;
    }
    h = if h < COORD_LIMIT { h + 1 } else { COORD_LIMIT };
    (w, h)
}

/// The walk that the search finds from `src` to `dst`, as positions.
pub open spec fn route_of(g: Seq<Seq<char>>, src: Pos, dst: Pos) -> Seq<Pos> {
    astar_of(g, (src.x, src.y), (dst.x, dst.y), search_limit(g, src, dst)).map_values(
        |q: (usize, usize)| to_pos(q),
    )
}

/// True iff the search area for a route from `src` to `dst` is small enough
/// to search.
pub open spec fn routable(g: Seq<Seq<char>>, src: Pos, dst: Pos) -> bool {
    search_limit(g, src, dst).0 * search_limit(g, src, dst).1 <= MAX_AREA
}

proof fn lemma_walk_is_route(w: Seq<(usize, usize)>, src: Pos, dst: Pos, limit: (usize, usize))
    requires
        w.len() >= 1,
        w[0] == (src.x, src.y),
        w.last() == (dst.x, dst.y),
        src.x < limit.0,
        src.y < limit.1,
        forall|i: int| 0 <= i < w.len() - 1 ==> adjacent(#[trigger] w[i], w[i + 1]) && in_area(w[i + 1], limit),
    ensures
        is_route(w.map_values(|q: (usize, usize)| to_pos(q)), src, dst, limit),
{
    let p = w.map_values(|q: (usize, usize)| to_pos(q));
    assert forall|k: int| 0 <= k < p.len() implies (#[trigger] p[k]).x < limit.0 && p[k].y < limit.1 by {
        if k > 0 {
            assert(adjacent(w[k - 1], w[k - 1 + 1]) && in_area(w[k - 1 + 1], limit));
        }
    }
    assert forall|k: int| 0 <= k < p.len() - 1 implies adjacent(
        (p[k].x, p[k].y),
        (#[trigger] p[k + 1].x, p[k + 1].y),
    ) by {
        assert(adjacent(w[k], w[k + 1]));
    }
}

/// Searches the cheapest walk from `src` to `dst` with the A* search of
/// `pathfinding`: a step costs `D` along a row or column and `D2` diagonally,
/// `OCCUPIED` more onto a visible glyph, and `OCCUPIED` more again for a
/// diagonal step between two visible glyphs. Within an area small enough to
/// search a walk is always found.
pub fn route(buf: &Buffer, src: Pos, dst: Pos) -> (r: Result<Vec<Pos>, RouteError>)
    requires
        in_canvas(src),
        in_canvas(dst),
    ensures
        r == Err::<Vec<Pos>, RouteError>(RouteError::TooLarge) <==> !routable(buf.grid(), src, dst),
        routable(buf.grid(), src, dst) ==> (r matches Ok(p) && p@ == route_of(buf.grid(), src, dst)
            && is_route(p@, src, dst, search_limit(buf.grid(), src, dst))),
{
    let limit = area_limit(buf, src, dst);
    let a = limit.0 as u128;
    let b = limit.1 as u128;
    assert(a * b <= 0x4000_0000u128 * 0x4000_0000u128) by (nonlinear_arith)
        requires
            a <= 0x4000_0000u128,
            b <= 0x4000_0000u128,
    ;
    if a * b > MAX_AREA as u128 {
        return Err(RouteError::TooLarge);
    }
    assert(limit.0 * limit.1 <= MAX_AREA);
    let found = astar_route(buf, (src.x, src.y), (dst.x, dst.y), limit);
    let walk = match found {
        Some(w) => w,
        None => {
            return Err(RouteError::NoRoute);
        },
    };
    let ghost w = walk@;
    let mut out: Vec<Pos> = Vec::new();
    let mut i: usize = 0;
    while i < walk.len()
        invariant
            i <= walk@.len(),
            w == walk@,
            out@.len() == i,
            forall|k: int| 0 <= k < i ==> #[trigger] out@[k] == to_pos(w[k]),
        decreases walk@.len() - i,
    {
        let q = walk[i];
        out.push(Pos { x: q.0, y: q.1 });
        i += 1;
    }
    assert(out@ =~= w.map_values(|q: (usize, usize)| to_pos(q)));
    proof {
        lemma_walk_is_route(w, src, dst, limit);
    }
    Ok(out)
}

/// The glyph that a routed path puts at its inner waypoint `i`: the stroke for
/// the incoming step, or the junction glyph where the outgoing step differs.
pub open spec fn path_write(p: Seq<Pos>, i: int, s: Symbols) -> Write {
    if i == 0 || i == p.len() - 1 {
        (p[i], s.plus, true)
    } else {
        let c = stroke_glyph(slope_spec(p[i - 1], p[i]), s);
        let next = stroke_glyph(slope_spec(p[i], p[i + 1]), s);
        if next != c {
            (p[i], s.plus, true)
        } else {
            (p[i], c, false)
        }
    }
}

/// The writes that draw the routed path `p`.
pub open spec fn path_writes(p: Seq<Pos>, s: Symbols) -> Seq<Write> {
    Seq::new(p.len(), |i: int| path_write(p, i, s))
}

/// Draw the walk `path` into the overlay: the junction glyph, forced, at both
/// ends and where the direction changes, the stroke for the direction
/// elsewhere; then join its cells other than those junctions to their
/// neighbours, and move the cursor to the walk's end.
pub fn draw_route(buf: &mut Buffer, path: &Vec<Pos>, symbols: &Symbols)
    requires
        old(buf).wf(),
        path@.len() >= 1,
        forall|i: int| 0 <= i < path@.len() ==> in_canvas(#[trigger] path@[i]),
    ensures
        final(buf).wf(),
        final(buf).chars@ == old(buf).chars@,
        final(buf).cursor == Some(path@.last()),
        final(buf).edits@ == drawn(
            old(buf).grid(),
            old(buf).edits@,
            path_writes(path@, *symbols),
            path@,
            forced_cells(path_writes(path@, *symbols)),
            *symbols,
        ),
{
    let n = path.len();
    let mut ws: Vec<Write> = Vec::new();
    let mut keep: Vec<Pos> = Vec::new();
    let mut i: usize = 0;
    while i < n
        invariant
            n == path@.len(),
            forall|k: int| 0 <= k < path@.len() ==> in_canvas(#[trigger] path@[k]),
            i <= n,
            ws@.len() == i,
            forall|k: int| 0 <= k < i ==> #[trigger] ws@[k] == path_write(path@, k, *symbols),
            keep@ == forced_cells(ws@),
        decreases n - i,
    {
        let p = path[i];
        let ghost before = ws@;
        let w: Write = if i == 0 || i == n - 1 {
            (p, symbols.plus, true)
        } else {
            let c = stroke(path[i - 1], p, symbols);
            let next = stroke(p, path[i + 1], symbols);
            if next != c {
                (p, symbols.plus, true)
            } else {
                (p, c, false)
            }
        };
        ws.push(w);
        assert(ws@.drop_last() =~= before);
        if w.2 {
            keep.push(p);
        }
        i += 1;
    }
    assert(ws@ =~= path_writes(path@, *symbols));
    assert forall|k: int| 0 <= k < ws@.len() implies in_canvas((#[trigger] ws@[k]).0) by {
        assert(ws@[k].0 == path@[k]);
    }
    apply_writes(buf, &ws);
    buf.set_cursor(path[n - 1]);
    fixup(buf, path, &keep, symbols);
}

/// Draw the route that the search finds from `src` to `dst` (see `route`) and
/// move the cursor to `dst`. Returns the route; on an error the buffer is left
/// as it was.
pub fn draw_path(buf: &mut Buffer, src: Pos, dst: Pos, symbols: &Symbols) -> (r: Result<Vec<Pos>, RouteError>)
    requires
        old(buf).wf(),
        in_canvas(src),
        in_canvas(dst),
    ensures
        final(buf).wf(),
        final(buf).chars@ == old(buf).chars@,
        r is Err ==> final(buf).edits@ == old(buf).edits@ && final(buf).cursor == old(buf).cursor,
        r == Err::<Vec<Pos>, RouteError>(RouteError::TooLarge) <==> !routable(old(buf).grid(), src, dst),
        routable(old(buf).grid(), src, dst) ==> (r matches Ok(p) && {
            &&& p@ == route_of(old(buf).grid(), src, dst)
            &&& is_route(p@, src, dst, search_limit(old(buf).grid(), src, dst))
            &&& final(buf).cursor == Some(dst)
            &&& final(buf).edits@ == drawn(
                old(buf).grid(),
                old(buf).edits@,
                path_writes(p@, *symbols),
                p@,
                forced_cells(path_writes(p@, *symbols)),
                *symbols,
            )
        }),
{
    let path = match route(buf, src, dst) {
        Ok(p) => p,
        Err(e) => {
            return Err(e);
        },
    };
    let ghost limit = search_limit(buf.grid(), src, dst);
    assert forall|k: int| 0 <= k < path@.len() implies in_canvas(#[trigger] path@[k]) by {
        assert(path@[k].x < limit.0);
    }
    draw_route(buf, &path, symbols);
    Ok(path)
}

} // verus!

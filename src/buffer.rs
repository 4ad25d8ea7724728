use vstd::prelude::*;

use crate::geometry::{in_canvas, Pos};
use crate::glyphs::{blocks, is_whitespace, is_ws, precedence, rank, Symbols, SP};

verus! {

/// One glyph at one position.
#[derive(Clone, Copy, Debug, PartialEq, Eq, Structural)]
pub struct Cell {
    pub pos: Pos,
    pub c: char,
}

/// The diagram: committed rows of glyphs (`chars`, ragged, missing cells read as
/// blank), pending writes not yet merged into them (`edits`), and an optional
/// cursor marker.
pub struct Buffer {
    pub chars: Vec<Vec<char>>,
    pub edits: Vec<Cell>,
    pub cursor: Option<Pos>,
}

/// The glyph at `p` in `g`, if that cell exists.
pub open spec fn get_cell(g: Seq<Seq<char>>, p: Pos) -> Option<char> {
    if p.y < g.len() && p.x < g[p.y as int].len() {
        Some(g[p.y as int][p.x as int])
    } else {
        None
    }
}

/// True iff the cell at `p` exists and holds a non-whitespace glyph.
pub open spec fn visible_in(g: Seq<Seq<char>>, p: Pos) -> bool {
    get_cell(g, p) matches Some(c) && !is_ws(c)
}

/// `g` with at least `n` rows; new rows are empty.
pub open spec fn grow_rows(g: Seq<Seq<char>>, n: nat) -> Seq<Seq<char>> {
    if g.len() >= n {
        g
    } else {
        g + Seq::new((n - g.len()) as nat, |i: int| Seq::<char>::empty())
    }
}

/// `r` with at least `n` cells; new cells are blank.
pub open spec fn pad_row(r: Seq<char>, n: nat) -> Seq<char> {
    if r.len() >= n {
        r
    } else {
        r + Seq::new((n - r.len()) as nat, |i: int| SP)
    }
}

/// `g` with `c` written at `p`, grown as needed.
pub open spec fn write_cell(g: Seq<Seq<char>>, p: Pos, c: char) -> Seq<Seq<char>> {
    let g1 = grow_rows(g, (p.y + 1) as nat);
    g1.update(p.y as int, pad_row(g1[p.y as int], (p.x + 1) as nat).update(p.x as int, c))
}

/// `g` with the writes of `es` applied in order.
pub open spec fn apply_edits(g: Seq<Seq<char>>, es: Seq<Cell>) -> Seq<Seq<char>>
    decreases es.len(),
{
    if es.len() == 0 {
        g
    } else {
        write_cell(apply_edits(g, es.drop_last()), es.last().pos, es.last().c)
    }
}

/// True iff a non-forced write of `c` at `p` is dropped: the committed glyph
/// there, or a pending one, blocks it.
pub open spec fn rejected(g: Seq<Seq<char>>, es: Seq<Cell>, p: Pos, c: char) -> bool {
    (get_cell(g, p) matches Some(old) && blocks(old, c))
        || exists|i: int| 0 <= i < es.len() && es[i].pos == p && blocks(es[i].c, c)
}

/// The pending writes after a write of `c` at `p`.
pub open spec fn set_edits(g: Seq<Seq<char>>, es: Seq<Cell>, force: bool, p: Pos, c: char) -> Seq<
    Cell,
> {
    if !force && rejected(g, es, p, c) {
        es
    } else {
        es.push(Cell { pos: p, c })
    }
}

pub open spec fn max_nat(a: nat, b: nat) -> nat {
    if a >= b {
        a
    } else {
        b
    }
}

/// The length of the longest row of `g`.
pub open spec fn widest(g: Seq<Seq<char>>) -> nat
    decreases g.len(),
{
    if g.len() == 0 {
        0
    } else {
        max_nat(widest(g.drop_last()), g.last().len())
    }
}

/// One past the largest column among `es`.
pub open spec fn edits_cols(es: Seq<Cell>) -> nat
    decreases es.len(),
{
    if es.len() == 0 {
        0
    } else {
        max_nat(edits_cols(es.drop_last()), (es.last().pos.x + 1) as nat)
    }
}

/// One past the largest row among `es`.
pub open spec fn edits_rows(es: Seq<Cell>) -> nat
    decreases es.len(),
{
    if es.len() == 0 {
        0
    } else {
        max_nat(edits_rows(es.drop_last()), (es.last().pos.y + 1) as nat)
    }
}


/// The rows of `g` as text: each row after `prefix` and followed by a newline.
pub open spec fn render_spec(g: Seq<Seq<char>>, prefix: Seq<char>) -> Seq<char>
    decreases g.len(),
{
    if g.len() == 0 {
        Seq::empty()
    } else {
        render_spec(g.drop_last(), prefix) + prefix + g.last() + seq!['\n']
    }
}

/// `t` cut at every newline; there is always at least one piece.
pub open spec fn pieces(t: Seq<char>) -> Seq<Seq<char>>
    decreases t.len(),
{
    if t.len() == 0 {
        seq![Seq::<char>::empty()]
    } else if t.last() == '\n' {
        pieces(t.drop_last()).push(Seq::empty())
    } else {
        let p = pieces(t.drop_last());
        p.update(p.len() - 1, p.last().push(t.last()))
    }
}

/// `r` without one trailing carriage return.
pub open spec fn strip_cr(r: Seq<char>) -> Seq<char> {
    if r.len() > 0 && r.last() == '\r' {
        r.drop_last()
    } else {
        r
    }
}

/// The lines of `t`: a final newline ends the last line rather than starting an
/// empty one, and a carriage return before a newline is not part of the line.
pub open spec fn lines_of(t: Seq<char>) -> Seq<Seq<char>> {
    let p = pieces(t);
    let q = if t.len() == 0 || t.last() == '\n' {
        p.drop_last()
    } else {
        p
    };
    q.map_values(|r: Seq<char>| strip_cr(r))
}

/// `r` without its trailing whitespace.
pub open spec fn trim_end(r: Seq<char>) -> Seq<char>
    decreases r.len(),
{
    if r.len() > 0 && is_ws(r.last()) {
        trim_end(r.drop_last())
    } else {
        r
    }
}

/// A diagram read back from text: the lines of the text, no pending writes and
/// no cursor.
pub open spec fn is_read_from(b: Buffer, t: Seq<char>) -> bool {
    b.grid() == lines_of(t) && b.edits@.len() == 0 && b.cursor is None
}

/// True iff every glyph of `r` is whitespace.
pub open spec fn all_ws(r: Seq<char>) -> bool {
    forall|i: int| 0 <= i < r.len() ==> is_ws(#[trigger] r[i])
}

/// The first index at or after `i` that holds a non-whitespace glyph, or the
/// length of `r`.
pub open spec fn mark_from(r: Seq<char>, i: int) -> int
    decreases r.len() - i,
{
    if i >= r.len() || !is_ws(r[i]) {
        i
    } else {
        mark_from(r, i + 1)
    }
}

/// The index of the first row at or after `i` that is not all whitespace, or
/// the number of rows.
pub open spec fn lead_from(g: Seq<Seq<char>>, i: int) -> int
    decreases g.len() - i,
{
    if i >= g.len() || !all_ws(g[i]) {
        i
    } else {
        lead_from(g, i + 1)
    }
}

/// One past the last row before `j` and at or after `lo` that is not all
/// whitespace, or `lo`.
pub open spec fn trail_to(g: Seq<Seq<char>>, lo: int, j: int) -> int
    decreases j - lo,
{
    if j <= lo || !all_ws(g[j - 1]) {
        j
    } else {
        trail_to(g, lo, j - 1)
    }
}

/// The smallest indentation among the rows before `k` that are not all
/// whitespace.
pub open spec fn min_mark(g: Seq<Seq<char>>, k: int) -> Option<int>
    decreases k,
{
    if k <= 0 {
        None
    } else {
        let prev = min_mark(g, k - 1);
        if all_ws(g[k - 1]) {
            prev
        } else {
            let m = mark_from(g[k - 1], 0);
            match prev {
                Some(p) => Some(if p <= m { p } else { m }),
                None => Some(m),
            }
        }
    }
}

/// `r` without its first `m` glyphs, but keeping at least one.
pub open spec fn cut_left(r: Seq<char>, m: int) -> Seq<char> {
    if r.len() == 0 {
        r
    } else {
        r.subrange(if r.len() - 1 <= m { r.len() - 1 } else { m }, r.len() as int)
    }
}

/// `g` without blank rows above and below, without the indentation that all
/// its rows share, and without trailing whitespace.
pub open spec fn strip_margin_spec(g: Seq<Seq<char>>) -> Seq<Seq<char>> {
    let lo = lead_from(g, 0);
    let hi = trail_to(g, lo, g.len() as int);
    let g1 = g.subrange(lo, hi);
    let g2 = match min_mark(g1, g1.len() as int) {
        Some(m) => g1.map_values(|r: Seq<char>| cut_left(r, m)),
        None => g1,
    };
    g2.map_values(|r: Seq<char>| trim_end(r))
}

fn is_blank_row(r: &Vec<char>) -> (b: bool)
    ensures
        b == all_ws(r@),
{
    let mut i: usize = 0;
    while i < r.len()
        invariant
            i <= r@.len(),
            forall|k: int| 0 <= k < i ==> is_ws(#[trigger] r@[k]),
        decreases r@.len() - i,
    {
        if !is_whitespace(r[i]) {
            return false;
        }
        i += 1;
    }
    true
}

fn first_mark_of(r: &Vec<char>) -> (m: usize)
    ensures
        m == mark_from(r@, 0),
{
    let mut i: usize = 0;
    while i < r.len() && is_whitespace(r[i])
        invariant
            i <= r@.len(),
            mark_from(r@, i as int) == mark_from(r@, 0),
        decreases r@.len() - i,
    {
        i += 1;
    }
    i
}

fn cut_row(r: &Vec<char>, m: usize) -> (out: Vec<char>)
    ensures
        out@ == cut_left(r@, m as int),
{
    let mut out: Vec<char> = Vec::new();
    if r.len() == 0 {
        assert(out@ =~= r@);
        return out;
    }
    let start: usize = if r.len() - 1 <= m { r.len() - 1 } else { m };
    let mut i: usize = start;
    while i < r.len()
        invariant
            start <= i <= r@.len(),
            out@ =~= r@.subrange(start as int, i as int),
        decreases r@.len() - i,
    {
        out.push(r[i]);
        i += 1;
    }
    out
}

/// What a buffer holds: its committed rows, its pending writes and its cursor.
pub struct BufferModel {
    pub grid: Seq<Seq<char>>,
    pub edits: Seq<Cell>,
    pub cursor: Option<Pos>,
}

/// The buffer after its pending writes are dropped.
pub open spec fn discarded(m: BufferModel) -> BufferModel {
    BufferModel { edits: Seq::empty(), ..m }
}

/// The buffer after its pending writes are merged into its rows.
pub open spec fn flushed(m: BufferModel) -> BufferModel {
    BufferModel { grid: apply_edits(m.grid, m.edits), edits: Seq::empty(), cursor: m.cursor }
}

/// A glyph to display: committed, pending, or the cursor marker.
#[derive(Clone, Copy, Debug, PartialEq, Eq, Structural)]
pub enum Char {
    Clean(Cell),
    Dirty(Cell),
    Cursor(Cell),
}

/// True iff `p` lies in the viewport at `offset` of `size` cells.
pub open spec fn in_view(p: Pos, offset: Pos, size: Pos) -> bool {
    offset.x <= p.x < offset.x + size.x && offset.y <= p.y < offset.y + size.y
}

/// The committed cells of row `r`, numbered `y`, at columns `lo` up to `k`.
pub open spec fn row_cells(r: Seq<char>, y: usize, lo: usize, k: usize) -> Seq<Char>
    decreases k - lo,
{
    if k <= lo {
        Seq::empty()
    } else {
        let x = (k - 1) as usize;
        row_cells(r, y, lo, x).push(Char::Clean(Cell { pos: Pos { x, y }, c: r[x as int] }))
    }
}

/// The committed cells of rows `offset.y` up to `k` inside the viewport.
pub open spec fn view_rows(g: Seq<Seq<char>>, offset: Pos, size: Pos, k: int) -> Seq<Char>
    decreases k - offset.y,
{
    if k <= offset.y {
        Seq::empty()
    } else {
        let y = k - 1;
        let hi = if offset.x + size.x <= g[y].len() { offset.x + size.x } else { g[y].len() as int };
        view_rows(g, offset, size, y) + row_cells(g[y], y as usize, offset.x, hi as usize)
    }
}

/// The pending writes inside the viewport, in order.
pub open spec fn view_edits(es: Seq<Cell>, offset: Pos, size: Pos) -> Seq<Char>
    decreases es.len(),
{
    if es.len() == 0 {
        Seq::empty()
    } else {
        let rest = view_edits(es.drop_last(), offset, size);
        if in_view(es.last().pos, offset, size) {
            rest.push(Char::Dirty(es.last()))
        } else {
            rest
        }
    }
}

/// Everything shown in the viewport: committed cells row by row, pending
/// writes in order, then the cursor marker.
pub open spec fn view_spec(b: Buffer, offset: Pos, size: Pos, curs: char) -> Seq<Char> {
    let g = b.grid();
    let ylim = if offset.y + size.y <= g.len() { offset.y + size.y } else { g.len() as int };
    let cells = view_rows(g, offset, size, ylim) + view_edits(b.edits@, offset, size);
    match b.cursor {
        Some(p) => cells.push(Char::Cursor(Cell { pos: p, c: curs })),
        None => cells,
    }
}

/// Returns the glyph at column `i` of `row`.
pub(crate) fn glyph_of(row: &Vec<char>, i: usize) -> (c: char)
    requires
        i < row@.len(),
    ensures
        c == row@[i as int],
{
    row[i]
}

impl Buffer {
    /// The committed rows.
    pub open spec fn grid(&self) -> Seq<Seq<char>> {
        self.chars@.map_values(|r: Vec<char>| r@)
    }

    pub open spec fn model(&self) -> BufferModel {
        BufferModel { grid: self.grid(), edits: self.edits@, cursor: self.cursor }
    }

    /// The rows as they will be once the pending writes are flushed.
    pub open spec fn merged(&self) -> Seq<Seq<char>> {
        apply_edits(self.grid(), self.edits@)
    }

    /// Every pending write and the cursor lie on the canvas.
    pub open spec fn wf(&self) -> bool {
        &&& forall|i: int| 0 <= i < self.edits@.len() ==> in_canvas(#[trigger] self.edits@[i].pos)
        &&& (self.cursor matches Some(p) ==> in_canvas(p))
    }

    /// The viewport size that shows all rows, pending writes and the cursor.
    pub open spec fn bounds_spec(&self) -> Pos {
        let cx: nat = if let Some(p) = self.cursor { (p.x + 1) as nat } else { 0 };
        let cy: nat = if let Some(p) = self.cursor { (p.y + 1) as nat } else { 0 };
        Pos {
            x: max_nat(max_nat(widest(self.grid()), edits_cols(self.edits@)), cx) as usize,
            y: max_nat(max_nat(self.grid().len(), edits_rows(self.edits@)), cy) as usize,
        }
    }

    /// Returns an empty buffer.
    pub fn new() -> (r: Buffer)
        ensures
            r.grid() == Seq::<Seq<char>>::empty(),
            r.edits@.len() == 0,
            r.cursor is None,
            r.wf(),
    {
        let r = Buffer { chars: Vec::new(), edits: Vec::new(), cursor: None };
        assert(r.grid() =~= Seq::<Seq<char>>::empty());
        r
    }

    /// Returns a copy of the committed rows, without pending writes or cursor.
    pub fn snapshot(&self) -> (r: Buffer)
        ensures
            r.grid() == self.grid(),
            r.edits@.len() == 0,
            r.cursor is None,
            r.wf(),
    {
        let mut chars: Vec<Vec<char>> = Vec::new();
        let mut i: usize = 0;
        while i < self.chars.len()
            invariant
                i <= self.chars@.len(),
                chars@.len() == i,
                chars@.map_values(|r: Vec<char>| r@) =~= self.grid().take(i as int),
            decreases self.chars@.len() - i,
        {
            let row = self.chars[i].clone();
            assert(row@ =~= self.chars@[i as int]@);
            let ghost prev = chars@;
            chars.push(row);
            proof {
                assert(chars@ == prev.push(row));
                assert(chars@[i as int]@ == self.grid()[i as int]);
                assert(forall|j: int| 0 <= j < i ==> chars@[j] == prev[j]);
                assert(forall|j: int| 0 <= j < i ==> prev.map_values(|r: Vec<char>| r@)[j] == self.grid()[j]);
            }
            i += 1;
            assert(chars@.map_values(|r: Vec<char>| r@) =~= self.grid().take(i as int));
        }
        let r = Buffer { chars, edits: Vec::new(), cursor: None };
        assert(r.grid() =~= self.grid());
        r
    }

    /// Set the cursor position to `pos`.
    pub fn set_cursor(&mut self, pos: Pos)
        ensures
            final(self).chars@ == old(self).chars@,
            final(self).edits@ == old(self).edits@,
            final(self).cursor == Some(pos),
    {
        self.cursor = Some(pos);
    }

    /// Hide the cursor.
    pub fn drop_cursor(&mut self)
        ensures
            final(self).chars@ == old(self).chars@,
            final(self).edits@ == old(self).edits@,
            final(self).cursor is None,
    {
        self.cursor = None;
    }

    /// Returns the cursor position, if one is shown.
    pub fn get_cursor(&self) -> (r: Option<Pos>)
        ensures
            r == self.cursor,
    {
        self.cursor
    }

    /// Clears all content.
    pub fn clear(&mut self)
        ensures
            final(self).grid() == Seq::<Seq<char>>::empty(),
            final(self).edits@.len() == 0,
            final(self).cursor is None,
    {
        self.chars.clear();
        self.edits.clear();
        self.cursor = None;
        assert(self.grid() =~= Seq::<Seq<char>>::empty());
    }

    /// Returns the glyph at `pos`, if that cell exists. Pending writes are not
    /// consulted.
    pub fn getv(&self, pos: Pos) -> (r: Option<char>)
        ensures
            r == get_cell(self.grid(), pos),
    {
        if pos.y < self.chars.len() && pos.x < self.chars[pos.y].len() {
            Some(self.chars[pos.y][pos.x])
        } else {
            None
        }
    }

    /// Returns true iff the cell at `pos` exists and holds a non-whitespace
    /// glyph. Pending writes are not consulted.
    pub fn visible(&self, pos: Pos) -> (r: bool)
        ensures
            r == visible_in(self.grid(), pos),
    {
        match self.getv(pos) {
            Some(c) => !is_whitespace(c),
            None => false,
        }
    }

    /// Stage a write of `c` at `pos`. A forced write is always staged; another
    /// is dropped when the cell already holds, committed or pending, a
    /// different glyph that is at least as strong.
    pub fn setv(&mut self, force: bool, pos: Pos, c: char)
        requires
            old(self).wf(),
            in_canvas(pos),
        ensures
            final(self).chars@ == old(self).chars@,
            final(self).cursor == old(self).cursor,
            final(self).edits@ == set_edits(old(self).grid(), old(self).edits@, force, pos, c),
            final(self).wf(),
    {
        if force {
            self.edits.push(Cell { pos, c });
            return;
        }
        let max_prec = precedence(c);
        let mut overridden = false;
        if pos.y < self.chars.len() && pos.x < self.chars[pos.y].len() {
            let old_c = self.chars[pos.y][pos.x];
            overridden = old_c != c && precedence(old_c) >= max_prec;
        }
        let mut i: usize = 0;
        while i < self.edits.len()
            invariant
                i <= self.edits@.len(),
                max_prec == rank(c),
                overridden == ((get_cell(self.grid(), pos) matches Some(old) && blocks(old, c))
                    || exists|j: int| 0 <= j < i && self.edits@[j].pos == pos && blocks(self.edits@[j].c, c)),
            decreases self.edits@.len() - i,
        {
            let cell = self.edits[i];
            if cell.pos == pos && cell.c != c && precedence(cell.c) >= max_prec {
                overridden = true;
            }
            i += 1;
        }
        if !overridden {
            self.edits.push(Cell { pos, c });
        }
    }

    /// Stage a write of `c` at column `x`, row `y`.
    pub fn set(&mut self, force: bool, x: usize, y: usize, c: char)
        requires
            old(self).wf(),
            in_canvas(Pos { x, y }),
        ensures
            final(self).chars@ == old(self).chars@,
            final(self).cursor == old(self).cursor,
            final(self).edits@ == set_edits(old(self).grid(), old(self).edits@, force, Pos { x, y }, c),
            final(self).wf(),
    {
        self.setv(force, Pos::new(x, y), c)
    }

    /// Write `c` at `p` in the committed rows, growing them as needed.
    fn write_at(&mut self, p: Pos, c: char)
        requires
            in_canvas(p),
        ensures
            final(self).grid() == write_cell(old(self).grid(), p, c),
            final(self).edits@ == old(self).edits@,
            final(self).cursor == old(self).cursor,
    {
        let ghost g0 = self.grid();
        while self.chars.len() <= p.y
            invariant
                in_canvas(p),
                self.grid() =~= grow_rows(g0, self.chars@.len() as nat),
                self.chars@.len() >= g0.len(),
                self.chars@.len() <= max_nat(g0.len(), (p.y + 1) as nat),
                self.edits@ == old(self).edits@,
                self.cursor == old(self).cursor,
            decreases p.y + 1 - self.chars@.len(),
        {
            let ghost prev = self.chars@;
            let fresh: Vec<char> = Vec::new();
            self.chars.push(fresh);
            proof {
                assert(self.chars@ == prev.push(fresh));
                let n = self.chars@.len();
                assert(forall|j: int| 0 <= j < n - 1 ==> self.chars@[j] == prev[j]);
                assert(self.grid()[n - 1] =~= Seq::<char>::empty());
                assert(forall|j: int| 0 <= j < n - 1 ==> #[trigger] self.grid()[j] == grow_rows(g0, (n - 1) as nat)[j]);
            }
            assert(self.grid() =~= grow_rows(g0, self.chars@.len() as nat));
        }
        let ghost g1 = self.grid();
        assert(g1 =~= grow_rows(g0, (p.y + 1) as nat));
        let ghost r0 = g1[p.y as int];
        let mut row: Vec<char> = Vec::new();
        std::mem::swap(&mut row, &mut self.chars[p.y]);
        assert(row@ == r0);
        while row.len() <= p.x
            invariant
                in_canvas(p),
                row@ =~= pad_row(r0, row@.len() as nat),
                row@.len() >= r0.len(),
                row@.len() <= max_nat(r0.len(), (p.x + 1) as nat),
            decreases p.x + 1 - row@.len(),
        {
            row.push(SP);
            assert(row@ =~= pad_row(r0, row@.len() as nat));
        }
        assert(row@ =~= pad_row(r0, (p.x + 1) as nat));
        row.set(p.x, c);
        self.chars.set(p.y, row);
        assert(self.grid() =~= write_cell(g0, p, c));
    }

    /// Merge the pending writes into the committed rows, in order, growing the
    /// rows as needed and filling new cells with blanks.
    pub fn flush_edits(&mut self)
        requires
            old(self).wf(),
        ensures
            final(self).grid() == old(self).merged(),
            final(self).edits@.len() == 0,
            final(self).cursor == old(self).cursor,
            final(self).model() == flushed(old(self).model()),
            final(self).wf(),
    {
        let ghost g0 = self.grid();
        let ghost es = self.edits@;
        let mut i: usize = 0;
        while i < self.edits.len()
            invariant
                self.wf(),
                self.edits@ == es,
                i <= es.len(),
                self.grid() == apply_edits(g0, es.take(i as int)),
                self.cursor == old(self).cursor,
            decreases es.len() - i,
        {
            let cell = self.edits[i];
            assert(in_canvas(self.edits@[i as int].pos));
            self.write_at(cell.pos, cell.c);
            assert(es.take(i + 1).drop_last() =~= es.take(i as int));
            i += 1;
        }
        assert(es.take(i as int) =~= es);
        self.edits.clear();
        assert(self.edits@ =~= Seq::<Cell>::empty());
    }

    /// Returns the viewport size required to display all rows, pending writes
    /// and the cursor.
    pub fn bounds(&self) -> (r: Pos)
        requires
            self.wf(),
            self.chars@.len() < usize::MAX,
        ensures
            r == self.bounds_spec(),
    {
        let ghost g = self.grid();
        let mut cols: usize = 0;
        let mut i: usize = 0;
        while i < self.chars.len()
            invariant
                i <= self.chars@.len(),
                g == self.grid(),
                cols == widest(g.take(i as int)),
            decreases self.chars@.len() - i,
        {
            let l = self.chars[i].len();
            assert(g.take(i + 1).drop_last() =~= g.take(i as int));
            if l > cols {
                cols = l;
            }
            i += 1;
        }
        assert(g.take(i as int) =~= g);
        let mut nrows: usize = self.chars.len();
        let ghost es = self.edits@;
        let mut j: usize = 0;
        while j < self.edits.len()
            invariant
                self.wf(),
                j <= es.len(),
                es == self.edits@,
                cols == max_nat(widest(g), edits_cols(es.take(j as int))),
                nrows == max_nat(g.len(), edits_rows(es.take(j as int))),
            decreases es.len() - j,
        {
            let p = self.edits[j].pos;
            assert(in_canvas(self.edits@[j as int].pos));
            assert(es.take(j + 1).drop_last() =~= es.take(j as int));
            if p.x + 1 > cols {
                cols = p.x + 1;
            }
            if p.y + 1 > nrows {
                nrows = p.y + 1;
            }
            j += 1;
        }
        assert(es.take(j as int) =~= es);
        if let Some(p) = self.cursor {
            if p.x + 1 > cols {
                cols = p.x + 1;
            }
            if p.y + 1 > nrows {
                nrows = p.y + 1;
            }
        }
        Pos { x: cols, y: nrows }
    }

    /// Returns true iff both buffers hold the same committed rows; pending
    /// writes and cursors are not compared.
    pub fn grid_eq(&self, other: &Buffer) -> (r: bool)
        ensures
            r == (self.grid() == other.grid()),
    {
        if self.chars.len() != other.chars.len() {
            assert(self.grid().len() != other.grid().len());
            return false;
        }
        let mut i: usize = 0;
        while i < self.chars.len()
            invariant
                i <= self.chars@.len(),
                self.chars@.len() == other.chars@.len(),
                forall|k: int| 0 <= k < i ==> self.grid()[k] == other.grid()[k],
            decreases self.chars@.len() - i,
        {
            let a = &self.chars[i];
            let b = &other.chars[i];
            if a.len() != b.len() {
                assert(self.grid()[i as int].len() != other.grid()[i as int].len());
                return false;
            }
            assert(self.grid()[i as int] == a@);
            assert(other.grid()[i as int] == b@);
            let mut j: usize = 0;
            while j < a.len()
                invariant
                    j <= a@.len(),
                    a@.len() == b@.len(),
                    i < self.chars@.len(),
                    self.chars@.len() == other.chars@.len(),
                    self.grid()[i as int] == a@,
                    other.grid()[i as int] == b@,
                    forall|k: int| 0 <= k < j ==> a@[k] == b@[k],
                decreases a@.len() - j,
            {
                if a[j] != b[j] {
                    assert(self.grid()[i as int][j as int] != other.grid()[i as int][j as int]);
                    return false;
                }
                j += 1;
            }
            assert(a@ =~= b@);
            i += 1;
        }
        assert(self.grid() =~= other.grid());
        true
    }

    /// Returns the committed rows as text: `prefix` before each row, a newline
    /// after it.
    pub fn render(&self, prefix: &Vec<char>) -> (r: Vec<char>)
        ensures
            r@ == render_spec(self.grid(), prefix@),
    {
        let ghost g = self.grid();
        let mut out: Vec<char> = Vec::new();
        let mut i: usize = 0;
        while i < self.chars.len()
            invariant
                i <= self.chars@.len(),
                g == self.grid(),
                out@ == render_spec(g.take(i as int), prefix@),
            decreases self.chars@.len() - i,
        {
            let ghost before = out@;
            let mut k: usize = 0;
            while k < prefix.len()
                invariant
                    k <= prefix@.len(),
                    out@ == before + prefix@.take(k as int),
                decreases prefix@.len() - k,
            {
                out.push(prefix[k]);
                assert(prefix@.take(k + 1) =~= prefix@.take(k as int).push(prefix@[k as int]));
                k += 1;
            }
            let row = &self.chars[i];
            let mut j: usize = 0;
            while j < row.len()
                invariant
                    j <= row@.len(),
                    out@ == before + prefix@ + row@.take(j as int),
                decreases row@.len() - j,
            {
                out.push(row[j]);
                assert(row@.take(j + 1) =~= row@.take(j as int).push(row@[j as int]));
                j += 1;
            }
            out.push('\n');
            assert(g.take(i + 1).drop_last() =~= g.take(i as int));
            assert(prefix@.take(prefix@.len() as int) =~= prefix@);
            assert(row@.take(row@.len() as int) =~= row@);
            assert(out@ =~= render_spec(g.take(i + 1), prefix@));
            i += 1;
        }
        assert(g.take(i as int) =~= g);
        out
    }

    /// Reads a diagram from text, one row per line.
    pub fn read_from(text: &Vec<char>) -> (r: Buffer)
        ensures
            is_read_from(r, text@),
            r.wf(),
    {
        let mut rows: Vec<Vec<char>> = Vec::new();
        let mut cur: Vec<char> = Vec::new();
        let mut i: usize = 0;
        while i < text.len()
            invariant
                i <= text@.len(),
                rows@.map_values(|r: Vec<char>| r@).push(cur@) == pieces(text@.take(i as int)),
                cur@.len() == 0 <==> (i == 0 || text@[i - 1] == '\n'),
            decreases text@.len() - i,
        {
            let c = text[i];
            let ghost t1 = text@.take(i + 1);
            assert(t1.drop_last() =~= text@.take(i as int));
            let ghost pre_rows = rows@.map_values(|r: Vec<char>| r@);
            if c == '\n' {
                let mut done: Vec<char> = Vec::new();
                std::mem::swap(&mut done, &mut cur);
                rows.push(done);
                assert(rows@.map_values(|r: Vec<char>| r@) =~= pre_rows.push(done@));
            } else {
                cur.push(c);
                assert(pre_rows.push(cur@) =~= pieces(t1));
            }
            i += 1;
        }
        assert(text@.take(i as int) =~= text@);
        let ghost p = pieces(text@);
        let ghost base = rows@.map_values(|r: Vec<char>| r@);
        assert(base.push(cur@) == p);
        if cur.len() > 0 {
            rows.push(cur);
            assert(rows@.map_values(|r: Vec<char>| r@) =~= p);
        } else {
            assert(p.drop_last() =~= base);
        }
        let ghost kept = rows@.map_values(|r: Vec<char>| r@);
        assert(kept =~= (if text@.len() == 0 || text@.last() == '\n' { p.drop_last() } else { p }));
        let mut k: usize = 0;
        while k < rows.len()
            invariant
                k <= rows@.len(),
                rows@.len() == kept.len(),
                forall|j: int| 0 <= j < k ==> #[trigger] rows@[j]@ == strip_cr(kept[j]),
                forall|j: int| k <= j < rows@.len() ==> #[trigger] rows@[j]@ == kept[j],
            decreases rows@.len() - k,
        {
            let mut row: Vec<char> = Vec::new();
            std::mem::swap(&mut row, &mut rows[k]);
            let n = row.len();
            if n > 0 && row[n - 1] == '\r' {
                row.pop();
            }
            rows.set(k, row);
            k += 1;
        }
        let r = Buffer { chars: rows, edits: Vec::new(), cursor: None };
        assert(r.grid() =~= lines_of(text@));
        r
    }

    /// Returns a buffer whose committed rows are this buffer's rows with the
    /// pending writes merged in; it has no pending writes and no cursor.
    pub fn merged_copy(&self) -> (r: Buffer)
        requires
            self.wf(),
        ensures
            r.grid() == self.merged(),
            r.edits@.len() == 0,
            r.cursor is None,
            r.wf(),
    {
        let mut r = self.snapshot();
        let ghost g0 = self.grid();
        let ghost es = self.edits@;
        let mut i: usize = 0;
        while i < self.edits.len()
            invariant
                self.wf(),
                self.edits@ == es,
                g0 == self.grid(),
                i <= es.len(),
                r.grid() == apply_edits(g0, es.take(i as int)),
                r.edits@.len() == 0,
                r.cursor is None,
            decreases es.len() - i,
        {
            let cell = self.edits[i];
            assert(in_canvas(self.edits@[i as int].pos));
            r.write_at(cell.pos, cell.c);
            assert(es.take(i + 1).drop_last() =~= es.take(i as int));
            i += 1;
        }
        assert(es.take(i as int) =~= es);
        r
    }

    /// Remove trailing whitespace from every row.
    pub fn strip_trailing_whitespace(&mut self)
        ensures
            final(self).grid() == old(self).grid().map_values(|r: Seq<char>| trim_end(r)),
            final(self).edits@ == old(self).edits@,
            final(self).cursor == old(self).cursor,
    {
        let ghost g0 = self.grid();
        let mut i: usize = 0;
        while i < self.chars.len()
            invariant
                i <= self.chars@.len(),
                self.chars@.len() == g0.len(),
                forall|k: int| 0 <= k < i ==> #[trigger] self.grid()[k] == trim_end(g0[k]),
                forall|k: int| i <= k < g0.len() ==> #[trigger] self.grid()[k] == g0[k],
                self.edits@ == old(self).edits@,
                self.cursor == old(self).cursor,
            decreases g0.len() - i,
        {
            let mut row: Vec<char> = Vec::new();
            assert(self.grid()[i as int] == g0[i as int]);
            let ghost pre = self.chars@;
            let ghost pre_grid = self.grid();
            std::mem::swap(&mut row, &mut self.chars[i]);
            assert(row@ == g0[i as int]);
            assert(row@.take(row@.len() as int) =~= row@);
            let mut j: usize = row.len();
            while j > 0 && is_whitespace(row[j - 1])
                invariant
                    i < g0.len(),
                    j <= row@.len(),
                    trim_end(row@.take(j as int)) == trim_end(g0[i as int]),
                    row@ == g0[i as int],
                decreases j,
            {
                assert(row@.take(j as int).drop_last() =~= row@.take(j - 1));
                j -= 1;
            }
            proof {
                assert(row@.take(row@.len() as int) =~= row@);
                if j > 0 {
                    assert(row@.take(j as int).last() == row@[j - 1]);
                }
            }
            row.truncate(j);
            assert(row@ =~= trim_end(g0[i as int]));
            let ghost mid = self.chars@;
            self.chars.set(i, row);
            assert(forall|k: int| 0 <= k < self.chars@.len() && k != i ==> self.chars@[k] == mid[k]);
            assert(forall|k: int| 0 <= k < self.chars@.len() && k != i ==> mid[k] == pre[k]);
            assert(forall|k: int| 0 <= k < self.chars@.len() && k != i ==> #[trigger] self.grid()[k] == pre_grid[k]);
            assert(self.grid()[i as int] == trim_end(g0[i as int]));
            i += 1;
        }
        assert(self.grid() =~= g0.map_values(|r: Seq<char>| trim_end(r)));
    }

    /// Remove the whitespace margins: blank rows above and below the content,
    /// the indentation that all non-blank rows share, and trailing whitespace.
    pub fn strip_margin_whitespace(&mut self)
        ensures
            final(self).grid() == strip_margin_spec(old(self).grid()),
            final(self).edits@ == old(self).edits@,
            final(self).cursor == old(self).cursor,
    {
        let ghost g = self.grid();
        let len = self.chars.len();
        let mut lo: usize = 0;
        while lo < len && is_blank_row(&self.chars[lo])
            invariant
                len == g.len(),
                g == self.grid(),
                lo <= len,
                lead_from(g, lo as int) == lead_from(g, 0),
            decreases len - lo,
        {
            lo += 1;
        }
        let mut hi: usize = len;
        while hi > lo && is_blank_row(&self.chars[hi - 1])
            invariant
                len == g.len(),
                g == self.grid(),
                lo <= hi <= len,
                trail_to(g, lo as int, hi as int) == trail_to(g, lo as int, len as int),
            decreases hi,
        {
            hi -= 1;
        }
        let ghost g1 = g.subrange(lo as int, hi as int);
        let mut rows: Vec<Vec<char>> = Vec::new();
        let mut k: usize = lo;
        while k < hi
            invariant
                lo <= k <= hi <= len,
                len == g.len(),
                g == self.grid(),
                rows@.len() == k - lo,
                forall|j: int| 0 <= j < rows@.len() ==> #[trigger] rows@[j]@ == g[lo + j],
            decreases hi - k,
        {
            let row = self.chars[k].clone();
            assert(row@ =~= g[k as int]);
            rows.push(row);
            k += 1;
        }
        assert(rows@.map_values(|r: Vec<char>| r@) =~= g1);
        let mut m: Option<usize> = None;
        let mut j: usize = 0;
        while j < rows.len()
            invariant
                j <= rows@.len(),
                rows@.map_values(|r: Vec<char>| r@) == g1,
                m matches Some(v) ==> Some(v as int) == min_mark(g1, j as int),
                m is None ==> min_mark(g1, j as int) is None,
            decreases rows@.len() - j,
        {
            assert(rows@[j as int]@ == g1[j as int]);
            if !is_blank_row(&rows[j]) {
                let f = first_mark_of(&rows[j]);
                m = match m {
                    Some(p) => Some(if p <= f { p } else { f }),
                    None => Some(f),
                };
            }
            j += 1;
        }
        let ghost g2 = match min_mark(g1, g1.len() as int) {
            Some(mm) => g1.map_values(|r: Seq<char>| cut_left(r, mm)),
            None => g1,
        };
        if let Some(mv) = m {
            let mut cut: Vec<Vec<char>> = Vec::new();
            let mut i: usize = 0;
            while i < rows.len()
                invariant
                    i <= rows@.len(),
                    rows@.map_values(|r: Vec<char>| r@) == g1,
                    cut@.len() == i,
                    forall|q: int| 0 <= q < i ==> #[trigger] cut@[q]@ == cut_left(g1[q], mv as int),
                decreases rows@.len() - i,
            {
                assert(rows@[i as int]@ == g1[i as int]);
                let c = cut_row(&rows[i], mv);
                cut.push(c);
                i += 1;
            }
            rows = cut;
            assert(rows@.map_values(|r: Vec<char>| r@) =~= g2);
        } else {
            assert(rows@.map_values(|r: Vec<char>| r@) =~= g2);
        }
        self.chars = rows;
        self.strip_trailing_whitespace();
    }

    /// Returns everything to display in the viewport at `offset` of `size`
    /// cells: committed cells, then pending writes, then the cursor marker.
    pub fn iter_within(&self, offset: Pos, size: Pos, symbols: &Symbols) -> (r: Vec<Char>)
        requires
            offset.x + size.x <= usize::MAX,
            offset.y + size.y <= usize::MAX,
        ensures
            r@ == view_spec(*self, offset, size, symbols.curs),
    {
        let ghost g = self.grid();
        let mut out: Vec<Char> = Vec::new();
        let ylim: usize = if offset.y + size.y <= self.chars.len() { offset.y + size.y } else { self.chars.len() };
        let mut y: usize = if offset.y <= ylim { offset.y } else { ylim };
        if y >= ylim {
            assert(view_rows(g, offset, size, ylim as int) =~= Seq::<Char>::empty());
        }
        while y < ylim
            invariant
                g == self.grid(),
                y <= ylim,
                y < ylim ==> offset.y <= y,
                y == ylim ==> out@ == view_rows(g, offset, size, ylim as int),
                ylim <= g.len(),
                offset.x + size.x <= usize::MAX,
                y < ylim ==> out@ == view_rows(g, offset, size, y as int),
            decreases ylim - y,
        {
            let row = &self.chars[y];
            assert(row@ == g[y as int]);
            let hi: usize = if offset.x + size.x <= row.len() { offset.x + size.x } else { row.len() };
            let ghost before = out@;
            let mut x: usize = if offset.x <= hi { offset.x } else { hi };
            if x >= hi {
                assert(row_cells(row@, y, offset.x, hi) =~= Seq::<Char>::empty());
                assert(out@ =~= before + row_cells(row@, y, offset.x, hi));
            }
            if x < hi {
                while x < hi
                    invariant
                        offset.x <= x <= hi,
                        hi <= row@.len(),
                        out@ == before + row_cells(row@, y, offset.x, x),
                    decreases hi - x,
                {
                    let c = glyph_of(row, x);
                    out.push(Char::Clean(Cell { pos: Pos { x, y }, c }));
                    assert(out@ =~= before + row_cells(row@, y, offset.x, (x + 1) as usize));
                    x += 1;
                }
            }
            assert(out@ =~= view_rows(g, offset, size, y + 1));
            y += 1;
            assert(y == ylim ==> out@ == view_rows(g, offset, size, ylim as int));
        }
        let ghost base = out@;
        let ghost es = self.edits@;
        let mut i: usize = 0;
        while i < self.edits.len()
            invariant
                es == self.edits@,
                i <= es.len(),
                offset.x + size.x <= usize::MAX,
                offset.y + size.y <= usize::MAX,
                out@ == base + view_edits(es.take(i as int), offset, size),
            decreases es.len() - i,
        {
            let e = self.edits[i];
            assert(es.take(i + 1).drop_last() =~= es.take(i as int));
            if offset.x <= e.pos.x && e.pos.x < offset.x + size.x && offset.y <= e.pos.y && e.pos.y < offset.y + size.y {
                out.push(Char::Dirty(e));
            }
            i += 1;
        }
        assert(es.take(i as int) =~= es);
        if let Some(p) = self.cursor {
            out.push(Char::Cursor(Cell { pos: p, c: symbols.curs }));
        }
        out
    }

    /// Drop all pending writes.
    pub fn discard_edits(&mut self)
        ensures
            final(self).chars@ == old(self).chars@,
            final(self).cursor == old(self).cursor,
            final(self).edits@.len() == 0,
            final(self).model() == discarded(old(self).model()),
    {
        self.edits.clear();
        assert(self.edits@ =~= Seq::<Cell>::empty());
    }
}

} // verus!

use vstd::prelude::*;

use crate::buffer::{glyph_of, Buffer, Cell};
use crate::geometry::Pos;

verus! {

/// A key or pointer event for text entry.
#[derive(Clone, Copy, Debug, PartialEq, Eq, Structural)]
pub enum TextEvent {
    Press(Pos),
    Char(char),
    Up,
    Down,
    Left,
    Right,
    Enter,
    Backspace,
    Esc,
}

/// What the editor does after a text-entry event.
#[derive(Clone, Copy, Debug, PartialEq, Eq, Structural)]
pub enum TextAction {
    /// The event is not for text entry.
    Ignored,
    /// Redraw the text as a preview.
    Preview,
    /// Write the text into the diagram as a recorded edit, then reset.
    Commit,
    /// Drop the text.
    Cancel,
}

/// What text entry holds: where the text starts, whether entry is under way,
/// the lines typed so far and the cursor within them.
pub struct TextModel {
    pub src: Option<Pos>,
    pub active: bool,
    pub lines: Seq<Seq<char>>,
    pub cursor: Pos,
}

pub open spec fn idle() -> TextModel {
    TextModel { src: None, active: false, lines: Seq::empty(), cursor: Pos { x: 0, y: 0 } }
}

/// Entry under way has a start, at least one line, and its cursor on a line
/// at a column no further than the line's end.
pub open spec fn text_wf(m: TextModel) -> bool {
    m.active ==> {
        &&& m.src is Some
        &&& m.lines.len() >= 1
        &&& m.cursor.y < m.lines.len()
        &&& m.cursor.x <= m.lines[m.cursor.y as int].len()
    }
}

pub open spec fn min_usize(a: usize, b: usize) -> usize {
    if a <= b {
        a
    } else {
        b
    }
}

/// The text entry state and action after `e`.
pub open spec fn text_step(m: TextModel, e: TextEvent) -> (TextModel, TextAction) {
    let x = m.cursor.x;
    let y = m.cursor.y;
    match e {
        TextEvent::Press(p) => if !m.active {
            (
                TextModel {
                    src: Some(p),
                    active: true,
                    lines: seq![Seq::empty()],
                    cursor: Pos { x: 0, y: 0 },
                },
                TextAction::Preview,
            )
        } else {
            (m, TextAction::Commit)
        },
        _ => if !m.active {
            (m, TextAction::Ignored)
        } else {
            match e {
                TextEvent::Char(c) => (
                    TextModel {
                        lines: m.lines.update(y as int, m.lines[y as int].insert(x as int, c)),
                        cursor: Pos { x: (x + 1) as usize, y },
                        ..m
                    },
                    TextAction::Preview,
                ),
                TextEvent::Up => {
                    let ny: usize = if y > 0 { (y - 1) as usize } else { 0 };
                    (
                        TextModel {
                            cursor: Pos { x: min_usize(m.lines[ny as int].len() as usize, x), y: ny },
                            ..m
                        },
                        TextAction::Preview,
                    )
                },
                TextEvent::Down => {
                    let ny: usize = min_usize((m.lines.len() - 1) as usize, (y + 1) as usize);
                    (
                        TextModel {
                            cursor: Pos { x: min_usize(m.lines[ny as int].len() as usize, x), y: ny },
                            ..m
                        },
                        TextAction::Preview,
                    )
                },
                TextEvent::Left => (
                    TextModel { cursor: Pos { x: if x > 0 { (x - 1) as usize } else { 0 }, y }, ..m },
                    TextAction::Preview,
                ),
                TextEvent::Right => (
                    TextModel {
                        cursor: Pos { x: min_usize(m.lines[y as int].len() as usize, (x + 1) as usize), y },
                        ..m
                    },
                    TextAction::Preview,
                ),
                TextEvent::Enter => {
                    let line = m.lines[y as int];
                    (
                        TextModel {
                            lines: m.lines.update(y as int, line.take(x as int)).insert(
                                y + 1,
                                line.skip(x as int),
                            ),
                            cursor: Pos { x: 0, y: (y + 1) as usize },
                            ..m
                        },
                        TextAction::Preview,
                    )
                },
                TextEvent::Backspace => if x > 0 {
                    (
                        TextModel {
                            lines: m.lines.update(y as int, m.lines[y as int].remove(x - 1)),
                            cursor: Pos { x: (x - 1) as usize, y },
                            ..m
                        },
                        TextAction::Preview,
                    )
                } else if y > 0 {
                    let prev = m.lines[y - 1];
                    (
                        TextModel {
                            lines: m.lines.update(y - 1, prev + m.lines[y as int]).remove(y as int),
                            cursor: Pos { x: prev.len() as usize, y: (y - 1) as usize },
                            ..m
                        },
                        TextAction::Preview,
                    )
                } else {
                    (m, TextAction::Preview)
                },
                _ => (idle(), TextAction::Cancel),
            }
        },
    }
}

/// The forced writes that put `line`, row `y` of the text, at `src`, from
/// column zero up to `k`; glyphs past the canvas are left out.
pub open spec fn line_writes_text(line: Seq<char>, src: Pos, y: int, k: int) -> Seq<Cell>
    decreases k,
{
    if k <= 0 {
        Seq::empty()
    } else {
        let rest = line_writes_text(line, src, y, k - 1);
        let p = Pos { x: (src.x + k - 1) as usize, y: (src.y + y) as usize };
        if src.x + k - 1 < crate::geometry::COORD_LIMIT && src.y + y < crate::geometry::COORD_LIMIT {
            rest.push(Cell { pos: p, c: line[k - 1] })
        } else {
            rest
        }
    }
}

/// The forced writes for the first `k` lines of the text at `src`.
pub open spec fn text_writes(lines: Seq<Seq<char>>, src: Pos, k: int) -> Seq<Cell>
    decreases k,
{
    if k <= 0 {
        Seq::empty()
    } else {
        text_writes(lines, src, k - 1) + line_writes_text(lines[k - 1], src, k - 1, lines[k - 1].len() as int)
    }
}

/// Text typed at a position in the diagram.
pub struct TextTool {
    pub src: Option<Pos>,
    pub cursor_active: bool,
    pub buffer: Vec<Vec<char>>,
    pub cursor: Pos,
}

impl TextTool {
    pub open spec fn model(&self) -> TextModel {
        TextModel {
            src: self.src,
            active: self.cursor_active,
            lines: self.buffer@.map_values(|r: Vec<char>| r@),
            cursor: self.cursor,
        }
    }

    /// Returns a tool with no text entry under way.
    pub fn new() -> (r: TextTool)
        ensures
            r.model() == idle(),
    {
        let r = TextTool { src: None, cursor_active: false, buffer: Vec::new(), cursor: Pos { x: 0, y: 0 } };
        assert(r.model().lines =~= Seq::<Seq<char>>::empty());
        r
    }

    /// End text entry.
    pub fn reset(&mut self)
        ensures
            final(self).model() == idle(),
    {
        self.src = None;
        self.cursor_active = false;
        self.buffer.clear();
        self.cursor = Pos { x: 0, y: 0 };
        assert(self.model().lines =~= Seq::<Seq<char>>::empty());
    }

    /// Handle one event: a press starts entry, or commits entry under way;
    /// keys edit the text; escape drops it.
    pub fn on_event(&mut self, e: TextEvent) -> (r: TextAction)
        requires
            text_wf(old(self).model()),
            old(self).cursor.x < usize::MAX,
            old(self).cursor.y < usize::MAX,
        ensures
            (final(self).model(), r) == text_step(old(self).model(), e),
            text_wf(final(self).model()),
    {
        let ghost m = self.model();
        if let TextEvent::Press(p) = e {
            if !self.cursor_active {
                self.src = Some(p);
                self.cursor_active = true;
                self.buffer.clear();
                self.buffer.push(Vec::new());
                self.cursor = Pos { x: 0, y: 0 };
                assert(self.model().lines =~= seq![Seq::<char>::empty()]);
                return TextAction::Preview;
            }
            return TextAction::Commit;
        }
        if !self.cursor_active {
            return TextAction::Ignored;
        }
        let x = self.cursor.x;
        let y = self.cursor.y;
        assert(self.buffer@[y as int]@ == m.lines[y as int]);
        match e {
            TextEvent::Char(c) => {
                let mut row: Vec<char> = Vec::new();
                std::mem::swap(&mut row, &mut self.buffer[y]);
                row.insert(x, c);
                self.buffer.set(y, row);
                self.cursor = Pos { x: x + 1, y };
                assert(self.model().lines =~= m.lines.update(y as int, m.lines[y as int].insert(x as int, c)));
                TextAction::Preview
            },
            TextEvent::Up => {
                let ny: usize = if y > 0 { y - 1 } else { 0 };
                let len = self.buffer[ny].len();
                self.cursor = Pos { x: if len <= x { len } else { x }, y: ny };
                TextAction::Preview
            },
            TextEvent::Down => {
                let last = self.buffer.len() - 1;
                let ny: usize = if last <= y + 1 { last } else { y + 1 };
                let len = self.buffer[ny].len();
                self.cursor = Pos { x: if len <= x { len } else { x }, y: ny };
                TextAction::Preview
            },
            TextEvent::Left => {
                self.cursor = Pos { x: if x > 0 { x - 1 } else { 0 }, y };
                TextAction::Preview
            },
            TextEvent::Right => {
                let len = self.buffer[y].len();
                self.cursor = Pos { x: if len <= x + 1 { len } else { x + 1 }, y };
                TextAction::Preview
            },
            TextEvent::Enter => {
                let mut row: Vec<char> = Vec::new();
                std::mem::swap(&mut row, &mut self.buffer[y]);
                let next = row.split_off(x);
                self.buffer.set(y, row);
                self.buffer.insert(y + 1, next);
                self.cursor = Pos { x: 0, y: y + 1 };
                let ghost line = m.lines[y as int];
                assert(self.model().lines =~= m.lines.update(y as int, line.take(x as int)).insert(
                    y + 1,
                    line.skip(x as int),
                ));
                TextAction::Preview
            },
            TextEvent::Backspace => {
                if x > 0 {
                    let mut row: Vec<char> = Vec::new();
                    std::mem::swap(&mut row, &mut self.buffer[y]);
                    row.remove(x - 1);
                    self.buffer.set(y, row);
                    self.cursor = Pos { x: x - 1, y };
                    assert(self.model().lines =~= m.lines.update(y as int, m.lines[y as int].remove(x - 1)));
                } else if y > 0 {
                    let mut next = self.buffer.remove(y);
                    let mut row: Vec<char> = Vec::new();
                    std::mem::swap(&mut row, &mut self.buffer[y - 1]);
                    let len = row.len();
                    row.append(&mut next);
                    self.buffer.set(y - 1, row);
                    self.cursor = Pos { x: len, y: y - 1 };
                    let ghost prev = m.lines[y - 1];
                    assert(self.model().lines =~= m.lines.update(y - 1, prev + m.lines[y as int]).remove(y as int));
                }
                TextAction::Preview
            },
            _ => {
                self.reset();
                TextAction::Cancel
            },
        }
    }

    /// Write the text, forced, at its start, and put the cursor after it.
    /// Does nothing when no entry is under way.
    pub fn render(&self, buf: &mut Buffer)
        requires
            old(buf).wf(),
        ensures
            final(buf).wf(),
            final(buf).chars@ == old(buf).chars@,
            match self.src {
                None => final(buf).edits@ == old(buf).edits@ && final(buf).cursor == old(buf).cursor,
                Some(s) => {
                    &&& final(buf).edits@ == old(buf).edits@ + text_writes(self.model().lines, s, self.model().lines.len() as int)
                    &&& final(buf).cursor == (if s.x + self.cursor.x < crate::geometry::COORD_LIMIT
                        && s.y + self.cursor.y < crate::geometry::COORD_LIMIT {
                        Some(Pos { x: (s.x + self.cursor.x) as usize, y: (s.y + self.cursor.y) as usize })
                    } else {
                        old(buf).cursor
                    })
                },
            },
    {
        let s = match self.src {
            Some(s) => s,
            None => {
                return;
            },
        };
        let ghost lines = self.model().lines;
        let ghost e0 = buf.edits@;
        let limit = crate::geometry::COORD_LIMIT;
        let mut y: usize = 0;
        while y < self.buffer.len()
            invariant
                y <= self.buffer@.len(),
                limit == crate::geometry::COORD_LIMIT,
                lines == self.model().lines,
                buf.wf(),
                buf.chars@ == old(buf).chars@,
                buf.cursor == old(buf).cursor,
                buf.edits@ == e0 + text_writes(lines, s, y as int),
            decreases self.buffer@.len() - y,
        {
            let line = &self.buffer[y];
            assert(line@ == lines[y as int]);
            let ghost before = buf.edits@;
            let mut x: usize = 0;
            while x < line.len()
                invariant
                    x <= line@.len(),
                    limit == crate::geometry::COORD_LIMIT,
                    y < self.buffer@.len(),
                    line@ == lines[y as int],
                    buf.wf(),
                    buf.chars@ == old(buf).chars@,
                    buf.cursor == old(buf).cursor,
                    buf.edits@ == before + line_writes_text(line@, s, y as int, x as int),
                decreases line@.len() - x,
            {
                let c = glyph_of(line, x);
                if x < limit && y < limit && s.x < limit - x && s.y < limit - y {
                    buf.setv(true, Pos { x: s.x + x, y: s.y + y }, c);
                }
                assert(buf.edits@ =~= before + line_writes_text(line@, s, y as int, x + 1));
                x += 1;
            }
            assert(buf.edits@ =~= e0 + text_writes(lines, s, y + 1));
            y += 1;
        }
        let cx = self.cursor.x;
        let cy = self.cursor.y;
        if cx < limit && cy < limit && s.x < limit - cx && s.y < limit - cy {
            buf.set_cursor(Pos { x: s.x + cx, y: s.y + cy });
        }
    }
}

} // verus!

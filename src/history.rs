use vstd::prelude::*;

use crate::buffer::{render_spec, strip_margin_spec, trim_end, Buffer};

verus! {

/// What undo and redo work on: the live rows, the two stacks of earlier and
/// undone rows, the rows last saved, and whether the live rows differ from a
/// save.
pub struct History {
    pub grid: Seq<Seq<char>>,
    pub undo: Seq<Seq<Seq<char>>>,
    pub redo: Seq<Seq<Seq<char>>>,
    pub saved: Seq<Seq<char>>,
    pub dirty: bool,
}

/// The history after an edit that left the rows `g`: an edit that changed
/// nothing is not recorded; any other pushes the earlier rows on the undo
/// stack, clears the redo stack, and marks the document dirty.
pub open spec fn after_edit(h: History, g: Seq<Seq<char>>) -> History {
    if g == h.grid {
        h
    } else {
        History { grid: g, undo: h.undo.push(h.grid), redo: Seq::empty(), saved: h.saved, dirty: true }
    }
}

/// The history after an undo.
pub open spec fn after_undo(h: History) -> History {
    if h.undo.len() == 0 {
        h
    } else {
        History {
            grid: h.undo.last(),
            undo: h.undo.drop_last(),
            redo: h.redo.push(h.grid),
            saved: h.saved,
            dirty: h.undo.last() != h.saved,
        }
    }
}

/// The history after a redo.
pub open spec fn after_redo(h: History) -> History {
    if h.redo.len() == 0 {
        h
    } else {
        History {
            grid: h.redo.last(),
            undo: h.undo.push(h.grid),
            redo: h.redo.drop_last(),
            saved: h.saved,
            dirty: h.redo.last() != h.saved,
        }
    }
}

pub open spec fn grids(bs: Seq<Buffer>) -> Seq<Seq<Seq<char>>> {
    bs.map_values(|b: Buffer| b.grid())
}

/// A document being edited: the live buffer, the buffer as last saved, and
/// the undo and redo stacks of snapshots.
pub struct Editor {
    pub buffer: Buffer,
    pub lsave: Buffer,
    pub dirty: bool,
    pub undo_history: Vec<Buffer>,
    pub redo_history: Vec<Buffer>,
}

impl Editor {
    pub open spec fn history(&self) -> History {
        History {
            grid: self.buffer.grid(),
            undo: grids(self.undo_history@),
            redo: grids(self.redo_history@),
            saved: self.lsave.grid(),
            dirty: self.dirty,
        }
    }

    /// The live buffer and every snapshot are well formed.
    pub open spec fn wf(&self) -> bool {
        &&& self.buffer.wf()
        &&& forall|i: int| 0 <= i < self.undo_history@.len() ==> (#[trigger] self.undo_history@[i]).wf()
        &&& forall|i: int| 0 <= i < self.redo_history@.len() ==> (#[trigger] self.redo_history@[i]).wf()
    }

    /// Returns an editor on `buffer`, which counts as saved.
    pub fn new(buffer: Buffer) -> (r: Editor)
        requires
            buffer.wf(),
        ensures
            r.wf(),
            r.buffer == buffer,
            r.history() == (History {
                grid: buffer.grid(),
                undo: Seq::empty(),
                redo: Seq::empty(),
                saved: buffer.grid(),
                dirty: false,
            }),
    {
        let lsave = buffer.snapshot();
        let r = Editor { buffer, lsave, dirty: false, undo_history: Vec::new(), redo_history: Vec::new() };
        assert(grids(r.undo_history@) =~= Seq::empty());
        assert(grids(r.redo_history@) =~= Seq::empty());
        r
    }

    /// Returns true if the buffer has been modified since the last save.
    pub fn is_dirty(&self) -> (r: bool)
        ensures
            r == self.dirty,
    {
        self.dirty
    }

    /// Record that the live rows were saved.
    pub fn mark_saved(&mut self)
        requires
            old(self).wf(),
        ensures
            final(self).wf(),
            final(self).buffer == old(self).buffer,
            final(self).history() == (History { saved: old(self).buffer.grid(), dirty: false, ..old(self).history() }),
    {
        self.lsave = self.buffer.snapshot();
        self.dirty = false;
    }

    /// Clear all content and history and begin a blank, saved diagram.
    pub fn clear(&mut self)
        ensures
            final(self).wf(),
            final(self).buffer.edits@.len() == 0,
            final(self).buffer.cursor is None,
            final(self).history() == (History {
                grid: Seq::empty(),
                undo: Seq::empty(),
                redo: Seq::empty(),
                saved: Seq::empty(),
                dirty: false,
            }),
    {
        self.buffer.clear();
        self.lsave.clear();
        self.dirty = false;
        self.undo_history.clear();
        self.redo_history.clear();
        assert(grids(self.undo_history@) =~= Seq::empty());
        assert(grids(self.redo_history@) =~= Seq::empty());
    }

    /// Take a snapshot of the rows, drop any pending writes, and hand the buffer
    /// to `apply`. An edit that leaves the rows as they were is not recorded;
    /// any other is, and marks the document dirty.
    pub fn with_snapshot<F: FnOnce(Buffer) -> Buffer>(&mut self, apply: F)
        requires
            old(self).wf(),
            forall|b: Buffer| b.wf() ==> #[trigger] apply.requires((b,)),
            forall|b: Buffer, r: Buffer| #[trigger] apply.ensures((b,), r) ==> r.wf(),
        ensures
            final(self).wf(),
            exists|b: Buffer|
                {
                    &&& b.grid() == old(self).buffer.grid()
                    &&& b.edits@.len() == 0
                    &&& b.cursor == old(self).buffer.cursor
                    &&& #[trigger] apply.ensures((b,), final(self).buffer)
                },
            final(self).history() == after_edit(old(self).history(), final(self).buffer.grid()),
            final(self).lsave == old(self).lsave,
            final(self).buffer.grid() == old(self).buffer.grid() ==> {
                &&& final(self).undo_history@ == old(self).undo_history@
                &&& final(self).redo_history@ == old(self).redo_history@
                &&& final(self).dirty == old(self).dirty
            },
            final(self).buffer.grid() != old(self).buffer.grid() ==> {
                let u = final(self).undo_history@;
                &&& u.len() == old(self).undo_history@.len() + 1
                &&& u.drop_last() == old(self).undo_history@
                &&& u.last().grid() == old(self).buffer.grid()
                &&& u.last().edits@.len() == 0
                &&& u.last().cursor is None
                &&& final(self).redo_history@.len() == 0
                &&& final(self).dirty
            },
    {
        let snapshot = self.buffer.snapshot();
        self.buffer.discard_edits();
        let mut live = Buffer::new();
        std::mem::swap(&mut live, &mut self.buffer);
        let ghost input = live;
        let out = apply(live);
        let unchanged = out.grid_eq(&snapshot);
        self.buffer = out;
        if !unchanged {
            let ghost before = self.undo_history@;
            self.undo_history.push(snapshot);
            self.redo_history.clear();
            self.dirty = true;
            assert(self.undo_history@.drop_last() =~= before);
            assert(grids(self.undo_history@) =~= grids(before).push(snapshot.grid()));
            assert(grids(self.redo_history@) =~= Seq::empty());
        }
    }

    /// Restore the rows before the last recorded edit. Returns false if there
    /// was nothing to undo. The cursor stays where it was if the restored
    /// snapshot has none.
    pub fn undo(&mut self) -> (r: bool)
        requires
            old(self).wf(),
        ensures
            final(self).wf(),
            r == (old(self).undo_history@.len() > 0),
            final(self).history() == after_undo(old(self).history()),
            final(self).lsave == old(self).lsave,
            !r ==> {
                &&& final(self).buffer == old(self).buffer
                &&& final(self).undo_history@ == old(self).undo_history@
                &&& final(self).redo_history@ == old(self).redo_history@
                &&& final(self).dirty == old(self).dirty
            },
            r ==> {
                &&& final(self).undo_history@ == old(self).undo_history@.drop_last()
                &&& final(self).redo_history@ == old(self).redo_history@.push(old(self).buffer)
                &&& final(self).buffer.chars@ == old(self).undo_history@.last().chars@
                &&& final(self).buffer.edits@ == old(self).undo_history@.last().edits@
            },
            r ==> final(self).buffer.cursor == (if old(self).undo_history@.last().cursor is Some {
                old(self).undo_history@.last().cursor
            } else {
                old(self).buffer.cursor
            }),
    {
        let cursor = self.buffer.get_cursor();
        let ghost h = self.history();
        match self.undo_history.pop() {
            Some(mut b) => {
                let ghost rest = self.undo_history@;
                assert(old(self).undo_history@ == rest.push(b));
                assert(rest =~= old(self).undo_history@.drop_last());
                assert(grids(rest) =~= h.undo.drop_last());
                std::mem::swap(&mut b, &mut self.buffer);
                let ghost before = self.redo_history@;
                self.redo_history.push(b);
                assert(grids(self.redo_history@) =~= grids(before).push(b.grid()));
                self.dirty = !self.buffer.grid_eq(&self.lsave);
                if self.buffer.cursor.is_none() {
                    if let Some(p) = cursor {
                        self.buffer.set_cursor(p);
                    }
                }
                assert(self.redo_history@.last() == b);
                true
            },
            None => false,
        }
    }

    /// Reapply the last undone edit. Returns false if there was nothing to
    /// redo. The cursor stays where it was if the restored buffer has none.
    pub fn redo(&mut self) -> (r: bool)
        requires
            old(self).wf(),
        ensures
            final(self).wf(),
            r == (old(self).redo_history@.len() > 0),
            final(self).history() == after_redo(old(self).history()),
            final(self).lsave == old(self).lsave,
            !r ==> {
                &&& final(self).buffer == old(self).buffer
                &&& final(self).undo_history@ == old(self).undo_history@
                &&& final(self).redo_history@ == old(self).redo_history@
                &&& final(self).dirty == old(self).dirty
            },
            r ==> {
                &&& final(self).redo_history@ == old(self).redo_history@.drop_last()
                &&& final(self).undo_history@ == old(self).undo_history@.push(old(self).buffer)
                &&& final(self).buffer.chars@ == old(self).redo_history@.last().chars@
                &&& final(self).buffer.edits@ == old(self).redo_history@.last().edits@
            },
            r ==> final(self).buffer.cursor == (if old(self).redo_history@.last().cursor is Some {
                old(self).redo_history@.last().cursor
            } else {
                old(self).buffer.cursor
            }),
    {
        let cursor = self.buffer.get_cursor();
        let ghost h = self.history();
        match self.redo_history.pop() {
            Some(mut b) => {
                let ghost rest = self.redo_history@;
                assert(old(self).redo_history@ == rest.push(b));
                assert(rest =~= old(self).redo_history@.drop_last());
                assert(grids(rest) =~= h.redo.drop_last());
                std::mem::swap(&mut b, &mut self.buffer);
                let ghost before = self.undo_history@;
                self.undo_history.push(b);
                assert(grids(self.undo_history@) =~= grids(before).push(b.grid()));
                self.dirty = !self.buffer.grid_eq(&self.lsave);
                if self.buffer.cursor.is_none() {
                    if let Some(p) = cursor {
                        self.buffer.set_cursor(p);
                    }
                }
                true
            },
            None => false,
        }
    }
}

/// How whitespace is trimmed when a diagram is written out.
#[derive(Clone, Copy, Debug, PartialEq, Eq, Structural)]
pub enum WhitespacePolicy {
    /// Keep every glyph.
    Keep,
    /// Drop trailing whitespace from each row.
    TrimTrailing,
    /// Drop all whitespace margins.
    StripMargins,
}

/// The rows after trimming by `policy`.
pub open spec fn trimmed(g: Seq<Seq<char>>, policy: WhitespacePolicy) -> Seq<Seq<char>> {
    match policy {
        WhitespacePolicy::Keep => g,
        WhitespacePolicy::TrimTrailing => g.map_values(|r: Seq<char>| trim_end(r)),
        WhitespacePolicy::StripMargins => strip_margin_spec(g),
    }
}

fn strip_trailing(b: Buffer) -> (r: Buffer)
    requires
        b.wf(),
    ensures
        r.wf(),
        r.grid() == trimmed(b.grid(), WhitespacePolicy::TrimTrailing),
{
    let mut b = b;
    b.strip_trailing_whitespace();
    b
}

fn strip_margins(b: Buffer) -> (r: Buffer)
    requires
        b.wf(),
    ensures
        r.wf(),
        r.grid() == strip_margin_spec(b.grid()),
{
    let mut b = b;
    b.strip_margin_whitespace();
    b
}

impl Editor {
    /// Trim the rows by `policy` as a recorded edit, then return them as text,
    /// one row per line, ready to be written out.
    pub fn render_for_save(&mut self, policy: WhitespacePolicy) -> (r: Vec<char>)
        requires
            old(self).wf(),
        ensures
            final(self).wf(),
            final(self).history() == after_edit(
                old(self).history(),
                trimmed(old(self).buffer.grid(), policy),
            ),
            r@ == render_spec(trimmed(old(self).buffer.grid(), policy), Seq::empty()),
    {
        let ghost g = self.buffer.grid();
        match policy {
            WhitespacePolicy::Keep => {},
            WhitespacePolicy::TrimTrailing => self.with_snapshot(strip_trailing),
            WhitespacePolicy::StripMargins => self.with_snapshot(strip_margins),
        }
        proof {
            if policy == WhitespacePolicy::Keep {
                assert(after_edit(old(self).history(), g) == old(self).history());
            }
        }
        let empty: Vec<char> = Vec::new();
        assert(empty@ =~= Seq::<char>::empty());
        self.buffer.render(&empty)
    }

    /// Remove all whitespace margins as a recorded edit.
    pub fn trim_margins(&mut self)
        requires
            old(self).wf(),
        ensures
            final(self).wf(),
            final(self).history() == after_edit(old(self).history(), strip_margin_spec(old(self).buffer.grid())),
    {
        self.with_snapshot(strip_margins);
    }

    /// Returns the rows, without their whitespace margins, as text for the
    /// clipboard: `prefix` before each row, rows joined by newlines, no newline
    /// at the end. The editor is left as it is.
    pub fn clipboard_text(&self, prefix: &Vec<char>) -> (r: Vec<char>)
        requires
            self.wf(),
        ensures
            ({
                let full = render_spec(strip_margin_spec(self.buffer.grid()), prefix@);
                r@ == if full.len() > 0 && full.last() == '\n' {
                    full.drop_last()
                } else {
                    full
                }
            }),
    {
        let mut b = self.buffer.snapshot();
        b.strip_margin_whitespace();
        let mut out = b.render(prefix);
        let n = out.len();
        if n > 0 && out[n - 1] == '\n' {
            out.pop();
        }
        out
    }
}

/// Undoing an edit that changed the rows restores the rows from before it.
pub proof fn lemma_undo_after_edit(h: History, g: Seq<Seq<char>>)
    requires
        g != h.grid,
    ensures
        after_undo(after_edit(h, g)).grid == h.grid,
        after_undo(after_edit(h, g)).undo == h.undo,
{
}

/// Redoing right after an undo brings back the rows that were undone.
pub proof fn lemma_redo_after_undo(h: History)
    requires
        h.undo.len() > 0,
    ensures
        after_redo(after_undo(h)).grid == h.grid,
        after_redo(after_undo(h)).undo == h.undo,
{
    assert(h.undo.drop_last().push(h.undo.last()) =~= h.undo);
}

/// An edit that leaves the rows as they were changes nothing in the history:
/// the undo stack keeps its length and a clean document stays clean.
pub proof fn lemma_noop_edit(h: History)
    ensures
        after_edit(h, h.grid) == h,
{
}

} // verus!

use unikode::buffer::Buffer;
use unikode::geometry::Pos;
use unikode::glyphs::Symbols;
use unikode::history::Editor;
use unikode::tools::draw_box_on_buffer;

fn text(s: &str) -> Vec<char> {
    s.chars().collect()
}

fn boxed(mut b: Buffer) -> Buffer {
    draw_box_on_buffer(&mut b, Pos::new(0, 0), Pos::new(3, 2), &Symbols::default());
    b.flush_edits();
    b
}

#[test]
fn undo_restores_rows_before_an_edit() {
    let start = Buffer::read_from(&text("hello"));
    let mut ed = Editor::new(start.snapshot());
    ed.with_snapshot(boxed);
    assert!(ed.is_dirty());
    assert_eq!(ed.undo_history.len(), 1);
    assert!(!ed.buffer.grid_eq(&start));
    assert!(ed.undo());
    assert!(ed.buffer.grid_eq(&start));
    assert!(!ed.is_dirty());
    assert!(!ed.undo());
}

#[test]
fn redo_reapplies() {
    let mut ed = Editor::new(Buffer::new());
    ed.with_snapshot(boxed);
    let drawn = ed.buffer.snapshot();
    assert!(ed.undo());
    assert!(ed.redo());
    assert!(ed.buffer.grid_eq(&drawn));
    assert!(ed.is_dirty());
    assert!(!ed.redo());
}

#[test]
fn noop_edit_is_not_recorded() {
    let mut ed = Editor::new(Buffer::read_from(&text("x")));
    ed.with_snapshot(|b| b);
    assert_eq!(ed.undo_history.len(), 0);
    assert!(!ed.is_dirty());
}

#[test]
fn new_edit_clears_redo() {
    let mut ed = Editor::new(Buffer::new());
    ed.with_snapshot(boxed);
    assert!(ed.undo());
    assert_eq!(ed.redo_history.len(), 1);
    ed.with_snapshot(|mut b| {
        b.set(true, 0, 0, 'z');
        b.flush_edits();
        b
    });
    assert_eq!(ed.redo_history.len(), 0);
    assert!(!ed.redo());
}

#[test]
fn undo_keeps_cursor() {
    let mut ed = Editor::new(Buffer::new());
    ed.with_snapshot(boxed);
    assert_eq!(ed.buffer.get_cursor(), Some(Pos::new(3, 2)));
    assert!(ed.undo());
    assert_eq!(ed.buffer.get_cursor(), Some(Pos::new(3, 2)));
}

#[test]
fn saving_clears_dirty() {
    let mut ed = Editor::new(Buffer::new());
    ed.with_snapshot(boxed);
    ed.mark_saved();
    assert!(!ed.is_dirty());
    assert!(ed.undo());
    assert!(ed.is_dirty());
    assert!(ed.redo());
    assert!(!ed.is_dirty());
    ed.clear();
    assert!(!ed.is_dirty());
    assert_eq!(ed.buffer.chars.len(), 0);
}

#[test]
fn undo_with_nothing_to_undo_changes_nothing() {
    let mut b = Buffer::read_from(&text("ab"));
    b.set_cursor(Pos::new(1, 0));
    b.setv(true, Pos::new(0, 0), 'z');
    let mut ed = Editor::new(b);
    assert!(!ed.undo());
    assert!(!ed.redo());
    assert_eq!(ed.buffer.get_cursor(), Some(Pos::new(1, 0)));
    assert_eq!(ed.buffer.edits.len(), 1);
    assert!(!ed.is_dirty());
}

#[test]
fn snapshot_on_the_stack_has_no_cursor() {
    let mut b = Buffer::new();
    b.set_cursor(Pos::new(2, 2));
    let mut ed = Editor::new(b);
    ed.with_snapshot(boxed);
    assert_eq!(ed.undo_history.len(), 1);
    assert_eq!(ed.undo_history[0].get_cursor(), None);
    assert!(ed.undo_history[0].edits.is_empty());
}

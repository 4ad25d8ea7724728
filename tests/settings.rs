use unikode::buffer::{Buffer, Char};
use unikode::config::{LineNumberMode, Options};
use unikode::geometry::Pos;
use unikode::glyphs::Symbols;
use unikode::history::{Editor, WhitespacePolicy};
use unikode::tools::PathMode;

fn opts() -> Options {
    Options {
        path_mode: PathMode::Snap90,
        keep_trailing_ws: false,
        strip_margin_ws: false,
        line_mode: None,
        box_cursor_start: false,
        show_mode: false,
        symbols: Symbols::default(),
    }
}

fn text(s: &str) -> Vec<char> {
    s.chars().collect()
}

#[test]
fn config_lines_set_options() {
    let mut o = opts();
    o.apply_config_line("line_mode = abs");
    o.apply_config_line("  box_cursor_start=true ");
    o.apply_config_line("show_mode = true");
    o.apply_config_line("symbol_plus = *x");
    o.apply_config_line("symbol_hline=~");
    assert_eq!(o.line_mode, Some(LineNumberMode::Absolute));
    assert!(o.box_cursor_start);
    assert!(o.show_mode);
    assert_eq!(o.symbols.plus, '*');
    assert_eq!(o.symbols.hline, '~');
}

#[test]
fn config_lines_that_do_not_apply() {
    let mut o = opts();
    o.apply_config_line("line_mode = relative");
    o.apply_config_line("line_mode = absolute");
    assert_eq!(o.line_mode, Some(LineNumberMode::Relative));
    o.apply_config_line("show_mode = yes");
    o.apply_config_line("no equals sign");
    o.apply_config_line("symbol_bogus = x");
    o.apply_config_line("symbol_n =");
    o.apply_config_line("color_ui = #ffffff");
    assert!(!o.show_mode);
    assert_eq!(o.symbols, Symbols::default());
}

#[test]
fn save_text_trims_trailing_whitespace() {
    let mut ed = Editor::new(Buffer::read_from(&text("ab  \n c \n")));
    let out: String = ed.render_for_save(WhitespacePolicy::TrimTrailing).into_iter().collect();
    assert_eq!(out, "ab\n c\n");
    assert_eq!(ed.undo_history.len(), 1);
    assert!(ed.undo());
    let kept: String = ed.render_for_save(WhitespacePolicy::Keep).into_iter().collect();
    assert_eq!(kept, "ab  \n c \n");
}

#[test]
fn save_text_strips_margins() {
    let mut ed = Editor::new(Buffer::read_from(&text("\n   x\n    y\n")));
    let out: String = ed.render_for_save(WhitespacePolicy::StripMargins).into_iter().collect();
    assert_eq!(out, "x\n y\n");
}

#[test]
fn trim_margins_is_undoable() {
    let mut ed = Editor::new(Buffer::read_from(&text("\n  a\n")));
    ed.trim_margins();
    assert_eq!(ed.buffer.chars.len(), 1);
    assert!(ed.undo());
    assert_eq!(ed.buffer.chars.len(), 2);
}

#[test]
fn clipboard_text_has_prefix_and_no_final_newline() {
    let ed = Editor::new(Buffer::read_from(&text("\n  ab\n   c\n\n")));
    let out: String = ed.clipboard_text(&text("# ")).into_iter().collect();
    assert_eq!(out, "# ab\n#  c");
    assert_eq!(ed.buffer.chars.len(), 4);
}

#[test]
fn viewport_lists_clean_dirty_and_cursor() {
    let s = Symbols::default();
    let mut b = Buffer::read_from(&text("abc\ndef\nghi"));
    b.setv(true, Pos::new(1, 1), 'X');
    b.setv(true, Pos::new(9, 9), 'Y');
    b.set_cursor(Pos::new(2, 2));
    let seen = b.iter_within(Pos::new(1, 1), Pos::new(2, 2), &s);
    let want = vec![
        Char::Clean(unikode::buffer::Cell { pos: Pos::new(1, 1), c: 'e' }),
        Char::Clean(unikode::buffer::Cell { pos: Pos::new(2, 1), c: 'f' }),
        Char::Clean(unikode::buffer::Cell { pos: Pos::new(1, 2), c: 'h' }),
        Char::Clean(unikode::buffer::Cell { pos: Pos::new(2, 2), c: 'i' }),
        Char::Dirty(unikode::buffer::Cell { pos: Pos::new(1, 1), c: 'X' }),
        Char::Cursor(unikode::buffer::Cell { pos: Pos::new(2, 2), c: s.curs }),
    ];
    assert_eq!(seen, want);
}

use unikode::text::{TextAction, TextEvent, TextTool};

fn typed(tool: &TextTool) -> Vec<String> {
    tool.buffer.iter().map(|l| l.iter().collect()).collect()
}

#[test]
fn text_entry_edits_lines() {
    let mut t = TextTool::new();
    assert_eq!(t.on_event(TextEvent::Char('a')), TextAction::Ignored);
    assert_eq!(t.on_event(TextEvent::Press(Pos::new(2, 1))), TextAction::Preview);
    for c in "hello".chars() {
        t.on_event(TextEvent::Char(c));
    }
    t.on_event(TextEvent::Left);
    t.on_event(TextEvent::Left);
    t.on_event(TextEvent::Enter);
    assert_eq!(typed(&t), vec!["hel", "lo"]);
    assert_eq!(t.cursor, Pos::new(0, 1));
    t.on_event(TextEvent::Backspace);
    assert_eq!(typed(&t), vec!["hello"]);
    assert_eq!(t.cursor, Pos::new(3, 0));
    t.on_event(TextEvent::Backspace);
    assert_eq!(typed(&t), vec!["helo"]);
    t.on_event(TextEvent::Right);
    t.on_event(TextEvent::Right);
    t.on_event(TextEvent::Right);
    assert_eq!(t.cursor, Pos::new(4, 0));
    t.on_event(TextEvent::Down);
    assert_eq!(t.cursor, Pos::new(4, 0));
    t.on_event(TextEvent::Enter);
    t.on_event(TextEvent::Char('x'));
    t.on_event(TextEvent::Up);
    assert_eq!(t.cursor, Pos::new(1, 0));
    assert_eq!(t.on_event(TextEvent::Press(Pos::new(0, 0))), TextAction::Commit);
}

#[test]
fn text_is_rendered_forced() {
    let mut t = TextTool::new();
    t.on_event(TextEvent::Press(Pos::new(1, 0)));
    for c in "ab".chars() {
        t.on_event(TextEvent::Char(c));
    }
    t.on_event(TextEvent::Enter);
    t.on_event(TextEvent::Char('c'));
    let mut b = Buffer::read_from(&text("++++"));
    t.render(&mut b);
    b.flush_edits();
    let rows: Vec<String> = b.chars.iter().map(|l| l.iter().collect()).collect();
    assert_eq!(rows, vec!["+ab+", " c"]);
    assert_eq!(b.get_cursor(), Some(Pos::new(2, 1)));
}

#[test]
fn escape_drops_text() {
    let mut t = TextTool::new();
    t.on_event(TextEvent::Press(Pos::new(0, 0)));
    t.on_event(TextEvent::Char('z'));
    assert_eq!(t.on_event(TextEvent::Esc), TextAction::Cancel);
    assert!(t.buffer.is_empty());
    assert!(!t.cursor_active);
    let mut b = Buffer::new();
    t.render(&mut b);
    assert!(b.edits.is_empty());
}

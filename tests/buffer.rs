use unikode::buffer::Buffer;
use unikode::geometry::Pos;
use unikode::glyphs::{precedence, DASH, GAID, PIPE, PLUS, DIAG};
use unikode::tools::visible_cells;

fn text(s: &str) -> Vec<char> {
    s.chars().collect()
}

fn p(x: usize, y: usize) -> Pos {
    Pos::new(x, y)
}

fn row(b: &Buffer, y: usize) -> String {
    b.chars[y].iter().collect()
}

#[test]
fn precedence_ranks() {
    assert_eq!(precedence(PLUS), 5);
    assert_eq!(precedence(DASH), 4);
    assert_eq!(precedence(PIPE), 3);
    assert_eq!(precedence(DIAG), 2);
    assert_eq!(precedence(GAID), 1);
    assert_eq!(precedence('x'), 0);
    assert_eq!(precedence(' '), 0);
}

#[test]
fn stronger_write_survives_weaker() {
    let mut b = Buffer::new();
    b.setv(false, p(2, 1), PLUS);
    b.setv(false, p(2, 1), DASH);
    assert_eq!(b.edits.len(), 1);
    b.flush_edits();
    assert_eq!(b.getv(p(2, 1)), Some(PLUS));
}

#[test]
fn weaker_committed_glyph_is_replaced() {
    let mut b = Buffer::read_from(&text("|"));
    b.setv(false, p(0, 0), DASH);
    b.flush_edits();
    assert_eq!(b.getv(p(0, 0)), Some(DASH));
}

#[test]
fn stronger_committed_glyph_blocks() {
    let mut b = Buffer::read_from(&text("+"));
    b.setv(false, p(0, 0), PIPE);
    assert!(b.edits.is_empty());
    b.setv(true, p(0, 0), PIPE);
    b.flush_edits();
    assert_eq!(b.getv(p(0, 0)), Some(PIPE));
}

#[test]
fn equal_rank_keeps_a_different_glyph() {
    let mut b = Buffer::read_from(&text("a |"));
    b.setv(false, p(0, 0), 'b');
    assert!(b.edits.is_empty());
    b.setv(false, p(0, 0), 'a');
    assert_eq!(b.edits.len(), 1);
    b.setv(false, p(2, 0), PIPE);
    assert_eq!(b.edits.len(), 2);
    b.setv(false, p(1, 0), 'c');
    assert_eq!(b.edits.len(), 2);
    b.setv(false, p(1, 0), DASH);
    assert_eq!(b.edits.len(), 3);
    b.flush_edits();
    assert_eq!(row(&b, 0), "a-|");
}

#[test]
fn flush_grows_rows_with_blanks() {
    let mut b = Buffer::new();
    b.set(true, 3, 2, 'x');
    b.flush_edits();
    assert_eq!(b.chars.len(), 3);
    assert!(b.chars[0].is_empty());
    assert_eq!(row(&b, 2), "   x");
}

#[test]
fn flush_of_nothing_changes_nothing() {
    let mut b = Buffer::read_from(&text("ab\ncd"));
    let before = b.snapshot();
    b.flush_edits();
    assert!(b.grid_eq(&before));
}

#[test]
fn discard_twice_is_discard_once() {
    let mut b = Buffer::read_from(&text("ab"));
    b.setv(true, p(0, 0), 'z');
    b.discard_edits();
    let once = b.snapshot();
    assert!(b.edits.is_empty());
    b.discard_edits();
    assert!(b.edits.is_empty());
    assert!(b.grid_eq(&once));
    assert_eq!(row(&b, 0), "ab");
}

#[test]
fn render_and_read_round_trip() {
    let b = Buffer::read_from(&text("┌─┐\n│ │  \n\n└─┘"));
    let out = b.render(&Vec::new());
    assert_eq!(out.iter().collect::<String>(), "┌─┐\n│ │  \n\n└─┘\n");
    let back = Buffer::read_from(&out);
    assert!(back.grid_eq(&b));
}

#[test]
fn render_with_prefix() {
    let b = Buffer::read_from(&text("a\nb\n"));
    let out: String = b.render(&text("// ")).iter().collect();
    assert_eq!(out, "// a\n// b\n");
}

#[test]
fn read_drops_carriage_returns() {
    let b = Buffer::read_from(&text("a\r\nb\r\n"));
    assert_eq!(b.chars.len(), 2);
    assert_eq!(row(&b, 0), "a");
    assert_eq!(row(&b, 1), "b");
}

#[test]
fn read_of_empty_text_has_no_rows() {
    let b = Buffer::read_from(&Vec::new());
    assert_eq!(b.chars.len(), 0);
}

#[test]
fn bounds_cover_rows_edits_and_cursor() {
    let mut b = Buffer::read_from(&text("abc\nd"));
    assert_eq!(b.bounds(), p(3, 2));
    b.setv(true, p(5, 0), 'x');
    assert_eq!(b.bounds(), p(6, 2));
    b.set_cursor(p(1, 7));
    assert_eq!(b.bounds(), p(6, 8));
    b.drop_cursor();
    b.discard_edits();
    assert_eq!(b.bounds(), p(3, 2));
    b.clear();
    assert_eq!(b.bounds(), p(0, 0));
}

#[test]
fn visibility() {
    let b = Buffer::read_from(&text("a \tb"));
    assert!(b.visible(p(0, 0)));
    assert!(!b.visible(p(1, 0)));
    assert!(!b.visible(p(2, 0)));
    assert!(b.visible(p(3, 0)));
    assert!(!b.visible(p(9, 9)));
    assert_eq!(b.getv(p(3, 0)), Some('b'));
    assert_eq!(b.getv(p(4, 0)), None);
}

#[test]
fn trailing_whitespace_is_stripped() {
    let mut b = Buffer::read_from(&text("ab  \n  \n c\t"));
    b.strip_trailing_whitespace();
    assert_eq!(row(&b, 0), "ab");
    assert_eq!(row(&b, 1), "");
    assert_eq!(row(&b, 2), " c");
}

#[test]
fn margins_are_stripped() {
    let mut b = Buffer::read_from(&text("\n   \n    ab \n      c\n\n  \n"));
    b.strip_margin_whitespace();
    assert_eq!(b.chars.len(), 2);
    assert_eq!(row(&b, 0), "ab");
    assert_eq!(row(&b, 1), "  c");
}

#[test]
fn all_blank_rows_strip_to_nothing() {
    let mut b = Buffer::read_from(&text("  \n\n "));
    b.strip_margin_whitespace();
    assert_eq!(b.chars.len(), 0);
}

#[test]
fn visible_cells_in_a_box() {
    let mut b = Buffer::read_from(&text("ab c\n d  \nxyz"));
    b.setv(true, p(2, 1), 'q');
    b.setv(true, p(3, 3), 'r');
    let cells = visible_cells(&b, p(2, 1), p(0, 0));
    let got: Vec<(usize, usize, char)> = cells.iter().map(|c| (c.pos.x, c.pos.y, c.c)).collect();
    assert_eq!(got, vec![(0, 0, 'a'), (1, 0, 'b'), (1, 1, 'd'), (2, 1, 'q')]);
}

use unikode::buffer::Buffer;
use unikode::geometry::Pos;
use unikode::glyphs::{Symbols, HLINE, PLUS, VLINE};
use unikode::router::route;
use unikode::tools::{
    draw_arrow_on_buffer, draw_box_on_buffer, draw_line_on_buffer, erase_on_buffer,
    move_on_buffer, PathMode,
};

fn text(s: &str) -> Vec<char> {
    s.chars().collect()
}

fn p(x: usize, y: usize) -> Pos {
    Pos::new(x, y)
}

fn row(b: &Buffer, y: usize) -> String {
    b.chars[y].iter().collect()
}

#[test]
fn straight_line_has_junction_ends() {
    let s = Symbols::default();
    let mut b = Buffer::new();
    let cells = draw_line_on_buffer(&mut b, p(0, 0), p(4, 0), PathMode::Straight, &s).unwrap();
    assert_eq!(cells.len(), 5);
    b.flush_edits();
    assert_eq!(b.getv(p(0, 0)), Some(PLUS));
    assert_eq!(b.getv(p(4, 0)), Some(PLUS));
    for x in 1..4 {
        assert_eq!(b.getv(p(x, 0)), Some(HLINE));
    }
    assert_eq!(b.get_cursor(), Some(p(4, 0)));
}

#[test]
fn diagonal_line_uses_back_diagonal() {
    let s = Symbols::default();
    let mut b = Buffer::new();
    let cells = draw_line_on_buffer(&mut b, p(0, 0), p(3, 3), PathMode::Straight, &s).unwrap();
    assert_eq!(cells, vec![p(0, 0), p(1, 1), p(2, 2), p(3, 3)]);
    b.flush_edits();
    assert_eq!(b.getv(p(1, 1)), Some(s.gaid2));
    assert_eq!(b.getv(p(2, 2)), Some(s.gaid2));
    assert_eq!(b.getv(p(3, 3)), Some(PLUS));
}

#[test]
fn rising_line_uses_forward_diagonal() {
    let s = Symbols::default();
    let mut b = Buffer::new();
    draw_line_on_buffer(&mut b, p(0, 2), p(2, 0), PathMode::Straight, &s).unwrap();
    b.flush_edits();
    assert_eq!(b.getv(p(1, 1)), Some(s.diag2));
}

#[test]
fn right_angle_connector_turns_with_a_corner() {
    let s = Symbols::default();
    let mut b = Buffer::new();
    draw_line_on_buffer(&mut b, p(0, 0), p(4, 3), PathMode::Snap90, &s).unwrap();
    b.flush_edits();
    assert_eq!(b.getv(p(0, 1)), Some(VLINE));
    assert_eq!(b.getv(p(0, 3)), Some(PLUS));
    assert_eq!(b.getv(p(2, 3)), Some(HLINE));
    assert_eq!(b.getv(p(4, 3)), Some(PLUS));
}

#[test]
fn snap45_connector_goes_straight_then_diagonal() {
    let s = Symbols::default();
    let mut b = Buffer::new();
    let cells = draw_line_on_buffer(&mut b, p(0, 0), p(5, 3), PathMode::Snap45, &s).unwrap();
    assert_eq!(cells[0], p(0, 0));
    assert_eq!(*cells.last().unwrap(), p(5, 3));
    b.flush_edits();
    assert_eq!(b.getv(p(1, 0)), Some(HLINE));
    assert_eq!(b.getv(p(3, 1)), Some(s.gaid2));
}

#[test]
fn box_outline() {
    let s = Symbols::default();
    let mut b = Buffer::new();
    draw_box_on_buffer(&mut b, p(0, 0), p(3, 2), &s);
    b.flush_edits();
    assert_eq!(row(&b, 0), "┌──┐");
    assert_eq!(row(&b, 1), "│  │");
    assert_eq!(row(&b, 2), "└──┘");
    assert_eq!(b.get_cursor(), Some(p(3, 2)));
}

#[test]
fn box_drawn_from_bottom_right() {
    let s = Symbols::default();
    let mut b = Buffer::new();
    draw_box_on_buffer(&mut b, p(3, 2), p(0, 0), &s);
    b.flush_edits();
    assert_eq!(row(&b, 0), "┌──┐");
    assert_eq!(row(&b, 2), "└──┘");
}

#[test]
fn blank_cells_keep_box_strokes_out() {
    let s = Symbols::default();
    let mut b = Buffer::read_from(&text("     \n  x  \n     \n"));
    draw_box_on_buffer(&mut b, p(0, 0), p(4, 2), &s);
    b.flush_edits();
    assert_eq!(row(&b, 0), "     ");
    assert_eq!(row(&b, 1), "  x  ");
}

#[test]
fn thin_box_is_a_marker() {
    let s = Symbols::default();
    let mut b = Buffer::new();
    draw_box_on_buffer(&mut b, p(2, 1), p(2, 4), &s);
    b.flush_edits();
    assert_eq!(b.getv(p(2, 1)), Some(s.ubox));
    assert_eq!(b.get_cursor(), None);
}

#[test]
fn adjacent_boxes_share_junctions() {
    let s = Symbols::default();
    let mut b = Buffer::new();
    draw_box_on_buffer(&mut b, p(0, 0), p(3, 2), &s);
    b.flush_edits();
    draw_box_on_buffer(&mut b, p(3, 0), p(6, 2), &s);
    b.flush_edits();
    assert_eq!(row(&b, 0), "┌──┬──┐");
    assert_eq!(row(&b, 1), "│  │  │");
    assert_eq!(row(&b, 2), "└──┴──┘");
}

#[test]
fn overlapping_boxes_join_at_the_edges() {
    let s = Symbols::default();
    let mut b = Buffer::new();
    draw_box_on_buffer(&mut b, p(0, 0), p(4, 4), &s);
    b.flush_edits();
    draw_box_on_buffer(&mut b, p(2, 2), p(6, 6), &s);
    b.flush_edits();
    assert_eq!(b.getv(p(4, 2)), Some(s.lhinter));
    assert_eq!(b.getv(p(2, 4)), Some(s.tvinter));
    assert_eq!(b.getv(p(3, 3)), Some(' '));
    assert_eq!(b.getv(p(6, 6)), Some(s.brcorn));
}

#[test]
fn straight_arrow_points_east() {
    let s = Symbols::default();
    let mut b = Buffer::new();
    draw_arrow_on_buffer(&mut b, p(0, 0), p(4, 0), PathMode::Straight, &s).unwrap();
    b.flush_edits();
    assert_eq!(b.getv(p(4, 0)), Some(s.e));
    assert_eq!(b.getv(p(2, 0)), Some(HLINE));
}

#[test]
fn elbow_arrow_points_down() {
    let s = Symbols::default();
    let mut b = Buffer::new();
    draw_arrow_on_buffer(&mut b, p(0, 0), p(4, 3), PathMode::Snap90, &s).unwrap();
    b.flush_edits();
    assert_eq!(b.getv(p(4, 3)), Some(s.e));
    assert_eq!(b.getv(p(0, 3)), Some(PLUS));
    assert_eq!(b.getv(p(0, 1)), Some(VLINE));
}

#[test]
fn arrow_up_into_content_turns() {
    let s = Symbols::default();
    let mut b = Buffer::read_from(&text("\n\n     x"));
    draw_arrow_on_buffer(&mut b, p(4, 4), p(4, 2), PathMode::Straight, &s).unwrap();
    b.flush_edits();
    assert_eq!(b.getv(p(4, 2)), Some(s.e));
}

fn wall() -> Buffer {
    Buffer::read_from(&text("   #\n   #\n   #\n   #\n   #\n"))
}

fn walk_cost(path: &[Pos]) -> u64 {
    path.windows(2)
        .map(|w| if w[0].x != w[1].x && w[0].y != w[1].y { 1414 } else { 1000 })
        .sum()
}

#[test]
fn route_goes_around_a_wall() {
    let b = wall();
    let path = route(&b, p(0, 0), p(5, 5)).unwrap();
    assert_eq!(path[0], p(0, 0));
    assert_eq!(*path.last().unwrap(), p(5, 5));
    for q in &path {
        assert!(!(q.x == 3 && q.y < 5), "route crosses the wall at {:?}", q);
    }
    for w in path.windows(2) {
        assert!(w[0].x.abs_diff(w[1].x) <= 1 && w[0].y.abs_diff(w[1].y) <= 1);
    }
    assert_eq!(walk_cost(&path), 8242);
}

#[test]
fn route_on_empty_grid_is_diagonal() {
    let b = Buffer::new();
    let path = route(&b, p(0, 0), p(3, 3)).unwrap();
    assert_eq!(path, vec![p(0, 0), p(1, 1), p(2, 2), p(3, 3)]);
}

#[test]
fn routed_line_is_drawn() {
    let s = Symbols::default();
    let mut b = wall();
    let path = draw_line_on_buffer(&mut b, p(0, 0), p(5, 5), PathMode::Routed, &s).unwrap();
    b.flush_edits();
    assert_eq!(b.getv(p(0, 0)), Some(PLUS));
    assert_eq!(b.getv(p(5, 5)), Some(PLUS));
    for y in 0..5 {
        assert_eq!(b.getv(p(3, y)), Some('#'));
    }
    assert_eq!(path, route(&wall(), p(0, 0), p(5, 5)).unwrap());
}

#[test]
fn routed_arrow_gets_a_head() {
    let s = Symbols::default();
    let mut b = Buffer::new();
    draw_arrow_on_buffer(&mut b, p(0, 0), p(4, 0), PathMode::Routed, &s).unwrap();
    b.flush_edits();
    assert_eq!(b.getv(p(4, 0)), Some(s.e));
}

#[test]
fn erase_then_move_overwrites() {
    let mut b = Buffer::read_from(&text("ab\n\n+-\n"));
    erase_on_buffer(&mut b, p(0, 2), p(0, 2));
    b.flush_edits();
    assert_eq!(row(&b, 2), " -");
    move_on_buffer(&mut b, p(0, 0), p(1, 0), p(0, 0), p(0, 2));
    b.flush_edits();
    assert_eq!(row(&b, 0), "  ");
    assert_eq!(row(&b, 2), "ab");
    assert_eq!(b.get_cursor(), Some(p(0, 2)));
}

#[test]
fn move_stops_at_the_left_edge() {
    let mut b = Buffer::read_from(&text("  ab"));
    move_on_buffer(&mut b, p(2, 0), p(3, 0), p(2, 0), p(0, 0));
    b.flush_edits();
    assert_eq!(row(&b, 0), "ab  ");
}

use unikode::tools::{DragAction, Gesture, MouseEvent};

#[test]
fn drag_gesture_previews_then_commits() {
    let mut g = Gesture::new();
    assert_eq!(g.on_mouse(MouseEvent::Hold(p(1, 1))), DragAction::Ignored);
    assert_eq!(g.on_mouse(MouseEvent::Press(p(2, 3))), DragAction::Preview(p(2, 3), p(2, 3)));
    assert_eq!(g.on_mouse(MouseEvent::Hold(p(5, 6))), DragAction::Preview(p(2, 3), p(5, 6)));
    assert_eq!(g.on_mouse(MouseEvent::Release(p(7, 6))), DragAction::Commit(p(2, 3), p(7, 6)));
    assert_eq!(g.src, None);
    assert_eq!(g.on_mouse(MouseEvent::Release(p(7, 6))), DragAction::Ignored);
}

use unikode::geometry::COORD_LIMIT;
use unikode::router::RouteError;

#[test]
fn routing_across_the_whole_canvas_is_refused() {
    let s = Symbols::default();
    let mut b = Buffer::new();
    let far = p(COORD_LIMIT - 1, COORD_LIMIT - 1);
    assert_eq!(route(&b, p(0, 0), far), Err(RouteError::TooLarge));
    assert_eq!(
        draw_line_on_buffer(&mut b, p(0, 0), far, PathMode::Routed, &s),
        Err(RouteError::TooLarge)
    );
    assert!(b.edits.is_empty());
    assert_eq!(b.get_cursor(), None);
}

#[test]
fn bounds_at_the_canvas_edge() {
    let mut b = Buffer::new();
    b.setv(true, p(COORD_LIMIT - 1, 3), PLUS);
    assert_eq!(b.bounds(), p(COORD_LIMIT, 4));
}

#[test]
fn one_cell_line_is_a_junction() {
    let s = Symbols::default();
    let mut b = Buffer::new();
    let cells = draw_line_on_buffer(&mut b, p(2, 2), p(2, 2), PathMode::Straight, &s).unwrap();
    assert_eq!(cells, vec![p(2, 2)]);
    b.flush_edits();
    assert_eq!(b.getv(p(2, 2)), Some(PLUS));
}

#[test]
fn lone_stroke_becomes_a_straight_segment() {
    let s = Symbols::default();
    let mut b = Buffer::read_from(&text("│\n─"));
    b.setv(true, p(0, 1), HLINE);
    unikode::junctions::fixup(&mut b, &vec![p(0, 1)], &Vec::new(), &s);
    b.flush_edits();
    assert_eq!(b.getv(p(0, 1)), Some(VLINE));
}

#[test]
fn box_sides_follow_the_line_walk() {
    let s = Symbols::default();
    let mut b = Buffer::new();
    draw_box_on_buffer(&mut b, p(1, 1), p(5, 3), &s);
    b.flush_edits();
    assert_eq!(row(&b, 1), " ┌───┐");
    assert_eq!(row(&b, 2), " │   │");
    assert_eq!(row(&b, 3), " └───┘");
}

#[test]
fn no_neighbour_above_the_first_row() {
    let mut s = Symbols::default();
    s.vline = ' ';
    let mut b = Buffer::read_from(&text("─\nx"));
    unikode::junctions::fixup(&mut b, &vec![p(0, 0)], &Vec::new(), &s);
    b.flush_edits();
    assert_eq!(b.getv(p(0, 0)), Some(HLINE));
}

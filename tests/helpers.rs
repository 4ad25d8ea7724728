use unikode::config::{parse_color, Color, LineNumberMode, Options};
use unikode::geometry::{diff, drag, gcd, line_slope, snap45, Pos};
use unikode::glyphs::Symbols;
use unikode::junctions::{
    connects_down, connects_left, connects_right, connects_up, get_smart_char, is_arrow_tip,
    is_joinable,
};
use unikode::router::heuristic;
use unikode::tools::PathMode;

#[test]
fn gcd_values() {
    assert_eq!(gcd(12, 18), 6);
    assert_eq!(gcd(-12, 18), 6);
    assert_eq!(gcd(0, -5), 5);
    assert_eq!(gcd(0, 0), 0);
    assert_eq!(gcd(7, 3), 1);
}

#[test]
fn diff_values() {
    assert_eq!(diff(3, 10), 7);
    assert_eq!(diff(10, 3), 7);
    assert_eq!(diff(4, 4), 0);
}

#[test]
fn drag_values() {
    assert_eq!(drag(10, 5, 2), 7);
    assert_eq!(drag(2, 5, 0), 0);
    assert_eq!(drag(10, 2, 5), 13);
}

#[test]
fn slopes_are_reduced() {
    assert_eq!(line_slope(Pos::new(0, 0), Pos::new(4, 6)), (2, 3));
    assert_eq!(line_slope(Pos::new(4, 6), Pos::new(0, 0)), (-2, -3));
    assert_eq!(line_slope(Pos::new(3, 9), Pos::new(3, 2)), (0, -1));
    assert_eq!(line_slope(Pos::new(1, 1), Pos::new(1, 1)), (0, 0));
}

#[test]
fn snap45_elbows() {
    assert_eq!(snap45(Pos::new(0, 0), Pos::new(5, 3)), Pos::new(2, 0));
    assert_eq!(snap45(Pos::new(5, 3), Pos::new(0, 0)), Pos::new(3, 3));
    assert_eq!(snap45(Pos::new(0, 3), Pos::new(5, 0)), Pos::new(2, 3));
    assert_eq!(snap45(Pos::new(5, 0), Pos::new(0, 3)), Pos::new(3, 0));
    assert_eq!(snap45(Pos::new(2, 2), Pos::new(2, 7)), Pos::new(2, 7));
    assert_eq!(snap45(Pos::new(2, 2), Pos::new(9, 2)), Pos::new(9, 2));
    assert_eq!(snap45(Pos::new(0, 0), Pos::new(5, 2)), Pos::new(3, 0));
}

#[test]
fn heuristic_values() {
    assert_eq!(heuristic((0, 0), (0, 0)), 0);
    assert_eq!(heuristic((0, 0), (3, 0)), 3003);
    assert_eq!(heuristic((0, 0), (3, 3)), 4246);
    assert_eq!(heuristic((5, 1), (0, 0)), 5419);
}

#[test]
fn connection_tables() {
    let s = Symbols::default();
    assert!(connects_down(s.vline, &s));
    assert!(connects_down(s.tlcorn, &s));
    assert!(!connects_down(s.blcorn, &s));
    assert!(connects_up(s.blcorn, &s));
    assert!(!connects_up(s.hline, &s));
    assert!(connects_right(s.hline, &s));
    assert!(connects_right(s.w, &s));
    assert!(!connects_right(s.trcorn, &s));
    assert!(connects_left(s.trcorn, &s));
    assert!(connects_left(s.e, &s));
    assert!(is_joinable(s.plus, &s));
    assert!(is_joinable(s.n, &s));
    assert!(!is_joinable('x', &s));
    assert!(!is_joinable(' ', &s));
    assert!(is_arrow_tip(s.s, &s));
    assert!(!is_arrow_tip(s.plus, &s));
}

#[test]
fn smart_glyphs() {
    let s = Symbols::default();
    assert_eq!(get_smart_char(true, true, true, true, &s, 'x'), s.cinter);
    assert_eq!(get_smart_char(true, true, true, false, &s, 'x'), s.rhinter);
    assert_eq!(get_smart_char(true, true, false, true, &s, 'x'), s.lhinter);
    assert_eq!(get_smart_char(true, false, true, true, &s, 'x'), s.bvinter);
    assert_eq!(get_smart_char(false, true, true, true, &s, 'x'), s.tvinter);
    assert_eq!(get_smart_char(true, true, false, false, &s, 'x'), s.vline);
    assert_eq!(get_smart_char(false, false, true, true, &s, 'x'), s.hline);
    assert_eq!(get_smart_char(false, true, false, true, &s, 'x'), s.tlcorn);
    assert_eq!(get_smart_char(false, true, true, false, &s, 'x'), s.trcorn);
    assert_eq!(get_smart_char(true, false, false, true, &s, 'x'), s.blcorn);
    assert_eq!(get_smart_char(true, false, true, false, &s, 'x'), s.brcorn);
    assert_eq!(get_smart_char(true, false, false, false, &s, 'x'), s.vline);
    assert_eq!(get_smart_char(false, false, false, true, &s, 'x'), s.hline);
    assert_eq!(get_smart_char(false, false, false, false, &s, 'x'), 'x');
}

#[test]
fn line_modes() {
    assert_eq!(LineNumberMode::parse("relative"), Some(LineNumberMode::Relative));
    assert_eq!(LineNumberMode::parse("REL"), Some(LineNumberMode::Relative));
    assert_eq!(LineNumberMode::parse("Absolute"), Some(LineNumberMode::Absolute));
    assert_eq!(LineNumberMode::parse("abs"), Some(LineNumberMode::Absolute));
    assert_eq!(LineNumberMode::parse("absolut"), None);
    assert_eq!(LineNumberMode::parse(""), None);
}

#[test]
fn colors() {
    assert_eq!(parse_color("transparent"), Some(Color::TerminalDefault));
    assert_eq!(parse_color("#316AC5"), Some(Color::Rgb(0x31, 0x6a, 0xc5)));
    assert_eq!(parse_color("#ffffff"), Some(Color::Rgb(255, 255, 255)));
    assert_eq!(parse_color("#12345"), None);
    assert_eq!(parse_color("#12345g"), None);
    assert_eq!(parse_color("316AC5x"), None);
    assert_eq!(parse_color("Transparent"), None);
}

#[test]
fn path_mode_cycles() {
    let mut o = Options {
        path_mode: PathMode::Snap90,
        keep_trailing_ws: false,
        strip_margin_ws: false,
        line_mode: None,
        box_cursor_start: false,
        show_mode: false,
        symbols: Symbols::default(),
    };
    o.cycle_path_mode();
    assert_eq!(o.path_mode, PathMode::Routed);
    o.cycle_path_mode();
    assert_eq!(o.path_mode, PathMode::Snap90);
    o.path_mode = PathMode::Snap45;
    o.cycle_path_mode();
    assert_eq!(o.path_mode, PathMode::Routed);
}

use libbrz::{ColorMap, Coord, Rect, Style};

fn at(x: usize, y: usize) -> Coord {
    Coord { x, y }
}

fn pair(c: Coord) -> (usize, usize) {
    (c.x, c.y)
}

#[test]
fn center_halves_both_axes_rounding_down() {
    assert_eq!(pair(at(3, 3).center()), (1, 1));
    assert_eq!(pair(at(4, 5).center()), (2, 2));
}

#[test]
fn center_of_small_sizes() {
    assert_eq!(pair(at(0, 0).center()), (0, 0));
    assert_eq!(pair(at(1, 1).center()), (0, 0));
    assert_eq!(pair(at(usize::MAX, 2).center()), (usize::MAX / 2, 1));
}

#[test]
fn add_x_moves_right_only() {
    assert_eq!(pair(at(2, 7).add_x(5)), (7, 7));
    assert_eq!(pair(at(2, 7).add_x(0)), (2, 7));
}

#[test]
fn add_y_moves_down_only() {
    assert_eq!(pair(at(2, 7).add_y(5)), (2, 12));
    assert_eq!(pair(at(2, 7).add_y(0)), (2, 7));
}

#[test]
fn add_x_saturates() {
    assert_eq!(pair(at(usize::MAX - 1, 3).add_x(1)), (usize::MAX, 3));
    assert_eq!(pair(at(usize::MAX - 1, 3).add_x(2)), (usize::MAX, 3));
    assert_eq!(pair(at(usize::MAX, 3).add_x(usize::MAX)), (usize::MAX, 3));
}

#[test]
fn add_y_saturates() {
    assert_eq!(pair(at(3, usize::MAX - 1).add_y(1)), (3, usize::MAX));
    assert_eq!(pair(at(3, usize::MAX - 1).add_y(2)), (3, usize::MAX));
    assert_eq!(pair(at(3, usize::MAX).add_y(usize::MAX)), (3, usize::MAX));
}

#[test]
fn plus_adds_axis_by_axis() {
    assert_eq!(pair(at(1, 2) + at(3, 4)), (4, 6));
    assert_eq!(pair(at(0, 0) + at(0, 0)), (0, 0));
}

#[test]
fn plus_saturates_each_axis_on_its_own() {
    assert_eq!(pair(at(usize::MAX, 2) + at(1, 4)), (usize::MAX, 6));
    assert_eq!(pair(at(1, usize::MAX - 3) + at(1, 4)), (2, usize::MAX));
    assert_eq!(pair(at(usize::MAX, usize::MAX) + at(usize::MAX, usize::MAX)), (usize::MAX, usize::MAX));
}

#[test]
fn plus_agrees_with_add_x_then_add_y() {
    let a = at(10, usize::MAX - 2);
    let b = at(5, 7);
    assert_eq!(pair(a + b), pair(a.add_x(b.x).add_y(b.y)));
}

#[test]
fn a_position_equal_to_the_bound_is_outside() {
    assert!(!at(5, 0).is_inside_dimensions(at(5, 5)));
    assert!(!at(0, 5).is_inside_dimensions(at(5, 5)));
    assert!(!at(5, 5).is_inside_dimensions(at(5, 5)));
}

#[test]
fn a_position_below_the_bound_is_inside() {
    assert!(at(4, 4).is_inside_dimensions(at(5, 5)));
    assert!(at(0, 0).is_inside_dimensions(at(1, 1)));
    assert!(at(0, 4).is_inside_dimensions(at(5, 5)));
}

#[test]
fn nothing_is_inside_an_empty_size() {
    assert!(!at(0, 0).is_inside_dimensions(at(0, 0)));
    assert!(!at(0, 0).is_inside_dimensions(at(0, 9)));
    assert!(!at(0, 0).is_inside_dimensions(at(9, 0)));
}

#[test]
fn is_inside_looks_at_the_size_and_not_at_the_offset() {
    let far = Rect { offset: at(100, 100), dimensions: at(4, 2) };
    assert!(at(0, 0).is_inside(far));
    assert!(at(3, 1).is_inside(far));
    assert!(!at(4, 0).is_inside(far));
    assert!(!at(0, 2).is_inside(far));
    assert!(!at(100, 100).is_inside(far));
}

#[test]
fn default_style_is_all_zero() {
    let s = Style::default();
    assert_eq!((s.fg, s.bg, s.style), (0, 0, 0));
    assert_eq!(s, Style { fg: 0, bg: 0, style: 0 });
}

#[test]
fn styles_compare_field_by_field() {
    assert_eq!(Style { fg: 1, bg: 2, style: 3 }, Style { fg: 1, bg: 2, style: 3 });
    assert_ne!(Style { fg: 1, bg: 2, style: 3 }, Style { fg: 1, bg: 2, style: 4 });
    assert_ne!(Style { fg: 1, bg: 2, style: 3 }, Style { fg: 2, bg: 1, style: 3 });
}

#[test]
fn default_style_takes_the_colours_and_no_flags() {
    let map = ColorMap { default_bg: 40, default_fg: 37 };
    assert_eq!(map.default_style(), Style { fg: 37, bg: 40, style: 0 });
    let map = ColorMap { default_bg: u32::MAX, default_fg: 0 };
    assert_eq!(map.default_style(), Style { fg: 0, bg: u32::MAX, style: 0 });
}

use termgol::color::Color;
use termgol::common::point::Point;
use termgol::common::{intersect, RectAbsolute};
use termgol::state::cell_image::CellImage;

#[test]
fn common_test_calc_array_bounds() {}

#[test]
fn point_test_calc_array_bounds() {}

#[test]
fn point_steps_move_one_cell() {
    let p = Point::new(3, 5);
    assert_eq!((p.left().x, p.left().y), (2, 5));
    assert_eq!((p.right().x, p.right().y), (4, 5));
    assert_eq!((p.up().x, p.up().y), (3, 4));
    assert_eq!((p.down().x, p.down().y), (3, 6));
    assert_eq!((p.up_left().x, p.up_left().y), (2, 4));
    assert_eq!((p.up_right().x, p.up_right().y), (4, 4));
    assert_eq!((p.down_left().x, p.down_left().y), (2, 6));
    assert_eq!((p.down_right().x, p.down_right().y), (4, 6));
}

#[test]
fn point_arithmetic_and_extents() {
    let p = Point::new(7, 9);
    assert_eq!(p.width(), 7);
    assert_eq!(p.height(), 9);
    let q = p.plus(&Point::new(-2, 4));
    assert_eq!((q.x, q.y), (5, 13));
    let r = p.minus(&Point::new(1, 10));
    assert_eq!((r.x, r.y), (6, -1));
    let half = Point::new(7, 8).half();
    assert_eq!((half.x, half.y), (3, 4));
}

#[test]
fn point_containment_checks_the_rectangle() {
    let size = Point::new(4, 3);
    assert!(Point::new(0, 0).is_contained(&size));
    assert!(Point::new(3, 2).is_contained(&size));
    assert!(!Point::new(4, 2).is_contained(&size));
    assert!(!Point::new(3, 3).is_contained(&size));
    assert!(!Point::new(-1, 1).is_contained(&size));
}

#[test]
fn intersect_overlapping_rectangles() {
    let a = RectAbsolute { x1: 0, y1: 0, x2: 10, y2: 10 };
    let b = RectAbsolute { x1: 5, y1: -3, x2: 15, y2: 7 };
    let c = intersect(&a, &b);
    assert_eq!((c.x1, c.y1, c.x2, c.y2), (5, 0, 10, 7));
}

#[test]
fn intersect_disjoint_rectangles_is_empty() {
    let a = RectAbsolute { x1: 0, y1: 0, x2: 2, y2: 2 };
    let b = RectAbsolute { x1: 5, y1: 5, x2: 8, y2: 8 };
    let c = intersect(&a, &b);
    assert!(c.x1 > c.x2);
    assert!(c.y1 > c.y2);
}

#[test]
fn palette_color_constructors() {
    let c = Color::new(3, 9);
    assert_eq!(c.bg_color, Some(3));
    assert_eq!(c.fg_color, Some(9));

    let none = Color::none();
    assert_eq!(none.bg_color, None);
    assert_eq!(none.fg_color, None);

    let null = Color::null();
    assert_eq!(null.bg_color, Some(0));
    assert_eq!(null.fg_color, Some(0));

    let text = Color::text();
    assert_eq!(text.bg_color, Some(0));
    assert_eq!(text.fg_color, Some(7));
}

#[test]
fn cell_image_reads_rows_and_columns() {
    let image = CellImage::from_text("OO.\n.OO\n.O.");
    assert_eq!((image.size.x, image.size.y), (3, 3));
    let points: Vec<(i32, i32)> =
        image.living_points.iter().map(|p| (p.x, p.y)).collect();
    assert_eq!(points, vec![(0, 0), (1, 0), (1, 1), (2, 1), (1, 2)]);
}

#[test]
fn cell_image_skips_comment_lines_and_takes_the_longest_width() {
    let image = CellImage::from_text("!a comment\nO\nOOOO\n!x\nO");
    assert_eq!((image.size.x, image.size.y), (4, 3));
    let points: Vec<(i32, i32)> =
        image.living_points.iter().map(|p| (p.x, p.y)).collect();
    assert_eq!(points, vec![(0, 0), (0, 1), (1, 1), (2, 1), (3, 1), (0, 2)]);
}

#[test]
fn cell_image_treats_blanks_and_dots_as_dead() {
    let image = CellImage::from_text(". O\nX.x");
    let points: Vec<(i32, i32)> =
        image.living_points.iter().map(|p| (p.x, p.y)).collect();
    assert_eq!(points, vec![(2, 0), (0, 1), (2, 1)]);
}

#[test]
fn cell_image_of_empty_text_is_a_single_empty_line() {
    let image = CellImage::from_text("");
    assert_eq!((image.size.x, image.size.y), (0, 1));
    assert!(image.living_points.is_empty());
}

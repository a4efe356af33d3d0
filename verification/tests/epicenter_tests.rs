use std::collections::HashSet;

use pond::coordinate::Coordinate;
use pond::epicenter::epicenter;

#[test]
fn anchor_inside_gives_the_whole_square() {
    let cells = epicenter(1024, 1024, Coordinate::new(100, 100), 10);
    assert_eq!(cells.len(), 100);
    for c in &cells {
        assert!(100 <= c.x && c.x < 110);
        assert!(100 <= c.y && c.y < 110);
    }
    let distinct: HashSet<Coordinate> = cells.iter().copied().collect();
    assert_eq!(distinct.len(), 100);
    for y in 100..110 {
        for x in 100..110 {
            assert!(distinct.contains(&Coordinate::new(x, y)));
        }
    }
}

#[test]
fn square_that_just_fits_is_whole() {
    let cells = epicenter(16, 16, Coordinate::new(12, 12), 4);
    assert_eq!(cells.len(), 16);
}

#[test]
fn anchor_near_the_edge_gives_the_part_inside() {
    let cells = epicenter(1024, 1024, Coordinate::new(1020, 1021), 10);
    assert_eq!(cells.len(), 4 * 3);
    for c in &cells {
        assert!(1020 <= c.x && c.x < 1024);
        assert!(1021 <= c.y && c.y < 1024);
    }
    let distinct: HashSet<Coordinate> = cells.iter().copied().collect();
    assert_eq!(distinct.len(), 12);
}

#[test]
fn square_cut_on_one_side_only() {
    let cells = epicenter(8, 8, Coordinate::new(6, 1), 3);
    assert_eq!(
        cells,
        vec![
            Coordinate::new(6, 1),
            Coordinate::new(7, 1),
            Coordinate::new(6, 2),
            Coordinate::new(7, 2),
            Coordinate::new(6, 3),
            Coordinate::new(7, 3),
        ]
    );
}

#[test]
fn cells_come_row_by_row() {
    let cells = epicenter(8, 8, Coordinate::new(1, 2), 2);
    assert_eq!(
        cells,
        vec![
            Coordinate::new(1, 2),
            Coordinate::new(2, 2),
            Coordinate::new(1, 3),
            Coordinate::new(2, 3),
        ]
    );
}

#[test]
fn anchor_outside_the_field_reaches_nothing() {
    assert!(epicenter(8, 8, Coordinate::new(8, 0), 3).is_empty());
    assert!(epicenter(8, 8, Coordinate::new(0, 8), 3).is_empty());
    assert!(epicenter(8, 8, Coordinate::new(usize::MAX, usize::MAX), usize::MAX).is_empty());
}

#[test]
fn touch_without_width_reaches_nothing() {
    assert!(epicenter(8, 8, Coordinate::new(3, 3), 0).is_empty());
}

#[test]
fn field_without_cells_has_no_epicenter() {
    assert!(epicenter(0, 8, Coordinate::new(0, 0), 3).is_empty());
    assert!(epicenter(8, 0, Coordinate::new(0, 0), 3).is_empty());
}

#[test]
fn side_that_overflows_is_cut_at_the_edge() {
    let cells = epicenter(8, 8, Coordinate::new(5, 6), usize::MAX);
    assert_eq!(cells.len(), 3 * 2);
    assert_eq!(cells[0], Coordinate::new(5, 6));
    assert_eq!(cells[5], Coordinate::new(7, 7));
}

use conway::cell::Cell;
use conway::point::Point;
use std::convert::TryFrom;

#[test]
fn point_new_keeps_coordinates() {
    let p = Point::new(3, 7);
    assert_eq!(p.x, 3);
    assert_eq!(p.y, 7);
}

#[test]
fn point_from_unsigned_pair() {
    let p = Point::from((4usize, 9usize));
    assert_eq!(p.x, 4);
    assert_eq!(p.y, 9);
    let q: Point = (0usize, usize::MAX).into();
    assert_eq!(q.x, 0);
    assert_eq!(q.y, usize::MAX);
}

#[test]
fn point_from_signed_pair_succeeds_when_non_negative() {
    let p = Point::try_from((2isize, 5isize)).unwrap();
    assert_eq!(p.x, 2);
    assert_eq!(p.y, 5);
    let origin = Point::try_from((0isize, 0isize)).unwrap();
    assert_eq!(origin.x, 0);
    assert_eq!(origin.y, 0);
    let far = Point::try_from((isize::MAX, 1isize)).unwrap();
    assert_eq!(far.x, isize::MAX as usize);
    assert_eq!(far.y, 1);
}

#[test]
fn point_from_signed_pair_fails_when_negative() {
    assert!(Point::try_from((-1isize, 0isize)).is_err());
    assert!(Point::try_from((0isize, -1isize)).is_err());
    assert!(Point::try_from((-1isize, -1isize)).is_err());
    assert!(Point::try_from((isize::MIN, 3isize)).is_err());
}

#[test]
fn point_is_copied_freely() {
    let p = Point::new(1, 2);
    let q = p;
    let r = p.clone();
    assert_eq!((p.x, p.y), (q.x, q.y));
    assert_eq!((p.x, p.y), (r.x, r.y));
    assert_eq!(format!("{:?}", p), "Point { x: 1, y: 2 }");
}

#[test]
fn cell_new_and_is_alive() {
    let c = Cell::new(true, 3, 4);
    assert!(c.is_alive());
    assert_eq!(c.x, 3);
    assert_eq!(c.y, 4);
    let d = Cell::new(false, 0, 0);
    assert!(!d.is_alive());
}

#[test]
fn cell_set_state_changes_liveness_only() {
    let mut c = Cell::new(false, 5, 6);
    c.set_state(true);
    assert!(c.is_alive());
    assert_eq!((c.x, c.y), (5, 6));
    c.set_state(false);
    assert!(!c.is_alive());
    assert_eq!((c.x, c.y), (5, 6));
}

#[test]
fn cell_default_is_dead_at_origin() {
    let c = Cell::default();
    assert!(!c.is_alive());
    assert_eq!((c.x, c.y), (0, 0));
}

#[test]
fn cell_clone_is_equal() {
    let c = Cell::new(true, 8, 9);
    let d = c.clone();
    assert_eq!(d.is_alive(), c.is_alive());
    assert_eq!((d.x, d.y), (8, 9));
}

#[test]
fn live_cell_survives_with_two_or_three() {
    let c = Cell::new(true, 0, 0);
    let expected = [false, false, true, true, false, false, false, false, false];
    for k in 0u8..=8 {
        assert_eq!(c.next_state(k), expected[k as usize], "live cell, {} neighbours", k);
    }
}

#[test]
fn dead_cell_is_born_with_exactly_three() {
    let c = Cell::new(false, 0, 0);
    let expected = [false, false, false, true, false, false, false, false, false];
    for k in 0u8..=8 {
        assert_eq!(c.next_state(k), expected[k as usize], "dead cell, {} neighbours", k);
    }
}

#[test]
fn dead_cell_with_two_neighbours_stays_dead() {
    assert!(!Cell::new(false, 1, 1).next_state(2));
}

#[test]
fn next_state_beyond_eight_is_dead() {
    assert!(!Cell::new(true, 0, 0).next_state(9));
    assert!(!Cell::new(false, 0, 0).next_state(255));
}

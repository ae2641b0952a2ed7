use epicycles::geometry::{bounding_box, BoundingBox, Point};

fn point(x: i32, y: i32) -> Point {
    Point::new(x, y)
}

#[test]
fn point_new_keeps_coordinates() {
    let p = Point::new(-3, 12);
    assert_eq!(p.x, -3);
    assert_eq!(p.y, 12);
    assert_eq!(p, Point { x: -3, y: 12 });
}

#[test]
fn empty_box_has_inverted_corners() {
    let bbox = BoundingBox::empty();
    assert_eq!(bbox.min, point(i32::MAX, i32::MAX));
    assert_eq!(bbox.max, point(i32::MIN, i32::MIN));
    assert!(!bbox.holds(point(0, 0)));
}

#[test]
fn stretching_the_empty_box_gives_the_point() {
    let bbox = BoundingBox::empty().stretch_to(point(5, -8));
    assert_eq!(bbox, BoundingBox { min: point(5, -8), max: point(5, -8) });
}

#[test]
fn stretching_moves_each_corner_by_coordinate() {
    let bbox = BoundingBox { min: point(0, 0), max: point(10, 10) };
    assert_eq!(
        bbox.stretch_to(point(-4, 20)),
        BoundingBox { min: point(-4, 0), max: point(10, 20) }
    );
    assert_eq!(bbox.stretch_to(point(3, 3)), bbox);
    assert_eq!(
        bbox.stretch_to(point(15, -1)),
        BoundingBox { min: point(0, -1), max: point(15, 10) }
    );
}

#[test]
fn holds_counts_the_border_in() {
    let bbox = BoundingBox { min: point(-2, -3), max: point(4, 5) };
    assert!(bbox.holds(point(-2, -3)));
    assert!(bbox.holds(point(4, 5)));
    assert!(bbox.holds(point(0, 0)));
    assert!(!bbox.holds(point(-3, 0)));
    assert!(!bbox.holds(point(5, 0)));
    assert!(!bbox.holds(point(0, -4)));
    assert!(!bbox.holds(point(0, 6)));
}

#[test]
fn holds_all_finds_a_point_outside() {
    let bbox = BoundingBox { min: point(0, 0), max: point(9, 9) };
    assert!(bbox.holds_all(&vec![]));
    assert!(bbox.holds_all(&vec![point(0, 0), point(9, 9), point(4, 7)]));
    assert!(!bbox.holds_all(&vec![point(0, 0), point(10, 9), point(4, 7)]));
    assert!(!bbox.holds_all(&vec![point(0, 0), point(4, 7), point(4, -1)]));
}

#[test]
fn bounding_box_of_no_points_is_empty() {
    assert_eq!(bounding_box(&vec![]), BoundingBox::empty());
}

#[test]
fn bounding_box_takes_min_and_max_of_each_coordinate() {
    let points = vec![point(4, -7), point(-1, 9), point(2, 2), point(-1, -7)];
    assert_eq!(
        bounding_box(&points),
        BoundingBox { min: point(-1, -7), max: point(4, 9) }
    );
}

#[test]
fn bounding_box_holds_every_point() {
    let mut points = Vec::new();
    let mut seed: i64 = 12345;
    for _ in 0..500 {
        seed = (seed * 1103515245 + 12345) % 2147483648;
        let x = (seed % 2001 - 1000) as i32;
        seed = (seed * 1103515245 + 12345) % 2147483648;
        let y = (seed % 601 - 300) as i32;
        points.push(point(x, y));
    }
    let bbox = bounding_box(&points);
    assert!(bbox.holds_all(&points));
    for p in &points {
        assert!(bbox.min.x <= p.x && p.x <= bbox.max.x);
        assert!(bbox.min.y <= p.y && p.y <= bbox.max.y);
    }
    assert!(points.iter().any(|p| p.x == bbox.min.x));
    assert!(points.iter().any(|p| p.y == bbox.min.y));
    assert!(points.iter().any(|p| p.x == bbox.max.x));
    assert!(points.iter().any(|p| p.y == bbox.max.y));
}

#[test]
fn bounding_box_of_coinciding_points_is_that_point() {
    let points = vec![point(7, 0); 25];
    assert_eq!(
        bounding_box(&points),
        BoundingBox { min: point(7, 0), max: point(7, 0) }
    );
}

#[test]
fn bounding_box_reaches_the_ends_of_the_range() {
    let points = vec![point(i32::MIN, i32::MAX), point(i32::MAX, i32::MIN)];
    assert_eq!(
        bounding_box(&points),
        BoundingBox {
            min: point(i32::MIN, i32::MIN),
            max: point(i32::MAX, i32::MAX)
        }
    );
}

use epicycles::geometry::{BoundingBox, Point};
use epicycles::sampler::{sample_epicycles_in_time, Sampler, SAMPLE_COUNT};
use euclid::default::Vector2D;
use euclid::Angle;

/// The tip of a sum of rotating vectors at a time step, cut to whole numbers.
/// Each vector is given as (angular speed in rad/s, radius, initial angle).
fn tip_at(epicycles: &[(f32, f32, f32)], time: u32, samples_per_second: f32) -> Point {
    let mut sum: Vector2D<f32> = Vector2D::zero();
    for &(speed, radius, initial_angle) in epicycles {
        let turned = Angle::radians((speed * time as f32) / samples_per_second);
        let angle = Angle::radians(initial_angle) + turned;
        sum = sum + Vector2D::from_angle_and_length(angle, radius);
    }
    let whole = sum.to_i32();
    Point::new(whole.x, whole.y)
}

#[test]
fn default_sample_count() {
    assert_eq!(SAMPLE_COUNT, 10000);
}

#[test]
fn sampler_asks_for_time_steps_from_one_to_count_less_one() {
    let mut sampler = Sampler::new(4);
    assert_eq!(sampler.next_time(), Some(1));
    sampler.record(Point::new(1, 1));
    assert_eq!(sampler.next_time(), Some(2));
    sampler.record(Point::new(2, 4));
    assert_eq!(sampler.next_time(), Some(3));
    sampler.record(Point::new(3, 9));
    assert_eq!(sampler.next_time(), None);
    let (points, bbox) = sampler.finish();
    assert_eq!(points, vec![Point::new(1, 1), Point::new(2, 4), Point::new(3, 9)]);
    assert_eq!(
        bbox,
        BoundingBox { min: Point::new(1, 1), max: Point::new(3, 9) }
    );
}

#[test]
fn sampler_does_not_ask_twice_for_a_time_step_it_has() {
    let mut sampler = Sampler::new(3);
    assert_eq!(sampler.next_time(), Some(1));
    assert_eq!(sampler.next_time(), Some(1));
    sampler.record(Point::new(0, 0));
    assert_eq!(sampler.next_time(), Some(2));
}

#[test]
fn count_of_zero_or_one_takes_no_sample() {
    for count in [0u32, 1] {
        let sampler = Sampler::new(count);
        assert_eq!(sampler.next_time(), None);
        let (points, bbox) = sampler.finish();
        assert!(points.is_empty());
        assert_eq!(bbox, BoundingBox::empty());
    }
}

#[test]
fn count_of_two_takes_one_sample() {
    let (points, bbox) = sample_epicycles_in_time(2, |time| Point::new(time as i32, -5));
    assert_eq!(points, vec![Point::new(1, -5)]);
    assert_eq!(
        bbox,
        BoundingBox { min: Point::new(1, -5), max: Point::new(1, -5) }
    );
}

#[test]
fn unfinished_run_hands_out_what_it_has() {
    let mut sampler = Sampler::new(100);
    sampler.record(Point::new(-2, 6));
    sampler.record(Point::new(8, -3));
    let (points, bbox) = sampler.finish();
    assert_eq!(points.len(), 2);
    assert_eq!(
        bbox,
        BoundingBox { min: Point::new(-2, -3), max: Point::new(8, 6) }
    );
}

#[test]
fn sampling_visits_each_time_step_once_and_in_order() {
    let asked = std::cell::RefCell::new(Vec::new());
    let (points, _) = sample_epicycles_in_time(6, |time| {
        asked.borrow_mut().push(time);
        Point::new(time as i32 * 10, 0)
    });
    assert_eq!(asked.into_inner(), vec![1, 2, 3, 4, 5]);
    assert_eq!(
        points,
        vec![
            Point::new(10, 0),
            Point::new(20, 0),
            Point::new(30, 0),
            Point::new(40, 0),
            Point::new(50, 0)
        ]
    );
}

#[test]
fn sampling_keeps_the_smallest_box() {
    let (points, bbox) =
        sample_epicycles_in_time(8, |time| Point::new(3 - time as i32, (time * time) as i32 - 9));
    assert_eq!(points.len(), 7);
    assert_eq!(
        bbox,
        BoundingBox { min: Point::new(-4, -8), max: Point::new(2, 40) }
    );
    assert!(bbox.holds_all(&points));
}

#[test]
fn same_positions_give_the_same_trace() {
    let epicycles = [(3.0f32, 120.0f32, 0.5f32), (-7.5, 40.0, 1.0), (20.0, 9.5, 0.0)];
    let first = sample_epicycles_in_time(2000, |time| tip_at(&epicycles, time, 500.0));
    let second = sample_epicycles_in_time(2000, |time| tip_at(&epicycles, time, 500.0));
    assert_eq!(first.0.len(), 1999);
    assert_eq!(first.0, second.0);
    assert_eq!(first.1, second.1);
}

#[test]
fn no_epicycles_leave_every_sample_at_the_origin() {
    let (points, bbox) = sample_epicycles_in_time(50, |time| tip_at(&[], time, 500.0));
    assert_eq!(points.len(), 49);
    assert!(points.iter().all(|p| *p == Point::new(0, 0)));
    assert_eq!(
        bbox,
        BoundingBox { min: Point::new(0, 0), max: Point::new(0, 0) }
    );
}

#[test]
fn one_still_epicycle_leaves_every_sample_at_its_tip() {
    let epicycles = [(0.0f32, 7.9f32, 0.0f32)];
    let (points, bbox) = sample_epicycles_in_time(300, |time| tip_at(&epicycles, time, 500.0));
    assert_eq!(points.len(), 299);
    assert!(points.iter().all(|p| *p == Point::new(7, 0)));
    assert_eq!(
        bbox,
        BoundingBox { min: Point::new(7, 0), max: Point::new(7, 0) }
    );
}

#[test]
fn zero_radius_adds_nothing() {
    let with = [(2.0f32, 30.0f32, 0.25f32), (11.0, 0.0, 2.0)];
    let without = [(2.0f32, 30.0f32, 0.25f32)];
    let a = sample_epicycles_in_time(400, |time| tip_at(&with, time, 500.0));
    let b = sample_epicycles_in_time(400, |time| tip_at(&without, time, 500.0));
    assert_eq!(a.0, b.0);
    assert_eq!(a.1, b.1);
}

#[test]
fn negative_radius_points_the_other_way() {
    let epicycles = [(0.0f32, -12.5f32, 0.0f32)];
    let (points, _) = sample_epicycles_in_time(3, |time| tip_at(&epicycles, time, 500.0));
    assert_eq!(points, vec![Point::new(-12, 0), Point::new(-12, 0)]);
}

#[test]
fn one_turn_of_radius_ten_traces_a_circle() {
    let epicycles = [(2.0 * std::f32::consts::PI, 10.0f32, 0.0f32), (0.0, 0.0, 0.0)];
    let (points, bbox) = sample_epicycles_in_time(500, |time| tip_at(&epicycles, time, 500.0));
    assert_eq!(points.len(), 499);
    assert!(bbox.min.x == -10 || bbox.min.x == -9);
    assert!(bbox.min.y == -10 || bbox.min.y == -9);
    assert!(bbox.max.x == 10 || bbox.max.x == 9);
    assert!(bbox.max.y == 10 || bbox.max.y == 9);
    assert!(bbox.holds_all(&points));
    for p in &points {
        let squared = p.x * p.x + p.y * p.y;
        assert!(squared <= 100, "{:?} lies outside the circle", p);
        assert!(squared >= 64, "{:?} lies too far inside the circle", p);
    }
    // A quarter of a second in, the tip has made a quarter turn.
    assert_eq!(points[124].x, 0);
    assert!(points[124].y == 10 || points[124].y == 9);
}

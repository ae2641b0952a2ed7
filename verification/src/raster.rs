//! Fitting a trace into a square canvas and drawing it.
//!
//! The corner `min` of the bounding box is moved to the origin, and both
//! coordinates are divided by one whole number, the scale divisor, chosen so
//! that the far corner of the box still falls inside the canvas. Several
//! samples may fall on one pixel; a pixel is drawn where at least one does.

use vstd::prelude::*;
use crate::canvas::{background, canvas_pixels, foreground, Canvas, Color};
use crate::geometry::{greater, BoundingBox, Point};

verus! {

/// The side of the canvas that a run draws on unless told otherwise, in pixels.
pub const CANVAS_SIZE: u32 = 1000;

/// The longer side of the box: the greater of its width and its height.
pub open spec fn extent(bbox: BoundingBox) -> int {
    greater(bbox.max.x - bbox.min.x, bbox.max.y - bbox.min.y)
}

/// The divisor that fits a box into a canvas of side `canvas_size`: the
/// longer side of the box divided by the side of the canvas, rounded down,
/// plus one.
pub open spec fn scale_divisor(bbox: BoundingBox, canvas_size: int) -> int {
    extent(bbox) / canvas_size + 1
}

/// Where a sample falls on the canvas: its offset from the corner `min` of
/// the box, divided by the scale divisor and rounded down, on each axis.
pub open spec fn canvas_position(p: Point, bbox: BoundingBox, canvas_size: int) -> (int, int) {
    (
        (p.x - bbox.min.x) / scale_divisor(bbox, canvas_size),
        (p.y - bbox.min.y) / scale_divisor(bbox, canvas_size),
    )
}

/// Some sample of `points` falls on the pixel `at`.
pub open spec fn is_hit(points: Seq<Point>, bbox: BoundingBox, canvas_size: int, at: (int, int)) -> bool {
    exists|i: int| 0 <= i < points.len() && #[trigger] canvas_position(points[i], bbox, canvas_size) == at
}

/// The picture of a trace: a square of side `canvas_size` in which a pixel
/// has the foreground colour where a sample falls on it, and the background
/// colour elsewhere.
pub open spec fn picture(points: Seq<Point>, bbox: BoundingBox, canvas_size: int) -> Map<(int, int), Color> {
    Map::new(
        |at: (int, int)| 0 <= at.0 < canvas_size && 0 <= at.1 < canvas_size,
        |at: (int, int)|
            if is_hit(points, bbox, canvas_size, at) {
                foreground()
            } else {
                background()
            },
    )
}

/// euclid's `Point2D + Vector2D` on `i64` coordinates: the point moved by
/// the vector, coordinate by coordinate. The sums are those of `i64`, which
/// overflow outside its range; the precondition keeps them inside.
#[verifier::external_body]
fn translate(x: i64, y: i64, by_x: i64, by_y: i64) -> (moved: (i64, i64))
    requires
        i64::MIN <= x + by_x <= i64::MAX,
        i64::MIN <= y + by_y <= i64::MAX,
    ensures
        moved.0 == x + by_x,
        moved.1 == y + by_y,
{
    let moved = euclid::default::Point2D::new(x, y) + euclid::default::Vector2D::new(by_x, by_y);
    (moved.x, moved.y)
}

/// euclid's `Point2D::to_u32` on `i64` coordinates: the same point with
/// coordinates of type `u32`. The crate panics where a coordinate does not
/// fit; the precondition leaves those out.
#[verifier::external_body]
fn to_unsigned(x: i64, y: i64) -> (point: (u32, u32))
    requires
        0 <= x <= u32::MAX,
        0 <= y <= u32::MAX,
    ensures
        point.0 == x,
        point.1 == y,
{
    let point = euclid::default::Point2D::new(x, y).to_u32();
    (point.x, point.y)
}

/// The scale divisor of a box that holds at least one point.
pub fn scale_factor(bbox: &BoundingBox, canvas_size: u32) -> (scale: u64)
    requires
        canvas_size >= 1,
        bbox.is_inhabited(),
    ensures
        scale == scale_divisor(*bbox, canvas_size as int),
        scale >= 1,
{
    let width: i64 = bbox.max.x as i64 - bbox.min.x as i64;
    let height: i64 = bbox.max.y as i64 - bbox.min.y as i64;
    let longer: i64 = if width >= height { width } else { height };
    (longer as u64) / (canvas_size as u64) + 1
}

/// The pixel that a sample falls on, given the scale divisor of the box.
/// It lies inside the canvas.
pub fn scale_pixel(pixel: Point, bbox: &BoundingBox, canvas_size: u32, scale_factor: u64) -> (scaled: (u32, u32))
    requires
        canvas_size >= 1,
        bbox.contains(pixel),
        scale_factor == scale_divisor(*bbox, canvas_size as int),
    ensures
        (scaled.0 as int, scaled.1 as int) == canvas_position(pixel, *bbox, canvas_size as int),
        scaled.0 < canvas_size,
        scaled.1 < canvas_size,
{
    proof {
        lemma_position_in_canvas(pixel, *bbox, canvas_size as int);
    }
    let moved = translate(pixel.x as i64, pixel.y as i64, -(bbox.min.x as i64), -(bbox.min.y as i64));
    let moved_pixel = to_unsigned(moved.0, moved.1);
    ((moved_pixel.0 as u64 / scale_factor) as u32, (moved_pixel.1 as u64 / scale_factor) as u32)
}

/// Draws a trace: a blank square canvas of side `canvas_size` on which the
/// pixel of every sample is marked.
pub fn rasterize(points: &Vec<Point>, bbox: &BoundingBox, canvas_size: u32) -> (canvas: Canvas)
    requires
        canvas_size >= 1,
        3 * canvas_size * canvas_size <= isize::MAX,
        forall|i: int| 0 <= i < points.len() ==> bbox.contains(#[trigger] points[i]),
    ensures
        canvas.wf(),
        canvas.width() == canvas_size,
        canvas.height() == canvas_size,
        canvas_pixels(canvas) == picture(points@, *bbox, canvas_size as int),
{
    let mut canvas = Canvas::blank(canvas_size, canvas_size);
    assert(canvas_pixels(canvas) =~= picture(points@.take(0), *bbox, canvas_size as int));
    if points.len() > 0 {
        assert(bbox.contains(points[0]));
        let scale = scale_factor(bbox, canvas_size);
        let mut i: usize = 0;
        while i < points.len()
            invariant
                i <= points.len(),
                canvas_size >= 1,
                canvas.wf(),
                canvas.width() == canvas_size,
                canvas.height() == canvas_size,
                scale == scale_divisor(*bbox, canvas_size as int),
                forall|i: int| 0 <= i < points.len() ==> bbox.contains(#[trigger] points[i]),
                canvas_pixels(canvas) == picture(points@.take(i as int), *bbox, canvas_size as int),
            decreases points.len() - i,
        {
            let scaled_pixel = scale_pixel(points[i], bbox, canvas_size, scale);
            canvas.mark(scaled_pixel.0, scaled_pixel.1);
            proof {
                lemma_picture_grows(points@.take(i + 1), *bbox, canvas_size as int);
                assert(points@.take(i + 1).drop_last() =~= points@.take(i as int));
            }
            i += 1;
        }
    }
    assert(points@.take(points.len() as int) =~= points@);
    canvas
}

/// The scale divisor of a box that holds a point is at least 1, and it takes
/// the longer side of the box to less than the side of the canvas.
pub proof fn lemma_scale_fits(bbox: BoundingBox, canvas_size: int)
    requires
        canvas_size >= 1,
        bbox.is_inhabited(),
    ensures
        scale_divisor(bbox, canvas_size) >= 1,
        extent(bbox) < scale_divisor(bbox, canvas_size) * canvas_size,
        extent(bbox) / scale_divisor(bbox, canvas_size) < canvas_size,
{
    let e = extent(bbox);
    let s = scale_divisor(bbox, canvas_size);
    assert(e >= 0);
    assert(e / canvas_size >= 0 && e < (e / canvas_size + 1) * canvas_size) by (nonlinear_arith)
        requires
            e >= 0,
            canvas_size >= 1,
    ;
    assert(e / s < canvas_size) by (nonlinear_arith)
        requires
            e >= 0,
            s >= 1,
            e < s * canvas_size,
    ;
}

/// Every sample inside the box falls on a pixel of the canvas, whatever the
/// side of the canvas: both coordinates of its position are at least 0 and
/// less than `canvas_size`.
pub proof fn lemma_position_in_canvas(p: Point, bbox: BoundingBox, canvas_size: int)
    requires
        canvas_size >= 1,
        bbox.contains(p),
    ensures
        0 <= canvas_position(p, bbox, canvas_size).0 < canvas_size,
        0 <= canvas_position(p, bbox, canvas_size).1 < canvas_size,
{
    let s = scale_divisor(bbox, canvas_size);
    let e = extent(bbox);
    let dx = p.x - bbox.min.x;
    let dy = p.y - bbox.min.y;
    lemma_scale_fits(bbox, canvas_size);
    assert(0 <= dx / s < canvas_size) by (nonlinear_arith)
        requires
            0 <= dx <= e,
            s >= 1,
            e < s * canvas_size,
    ;
    assert(0 <= dy / s < canvas_size) by (nonlinear_arith)
        requires
            0 <= dy <= e,
            s >= 1,
            e < s * canvas_size,
    ;
}

/// Widening a box never lowers its scale divisor: a box that encloses
/// another has, for the same canvas, a divisor at least as great.
pub proof fn lemma_scale_is_monotonic(inner: BoundingBox, outer: BoundingBox, canvas_size: int)
    requires
        canvas_size >= 1,
        outer.encloses(inner),
    ensures
        scale_divisor(inner, canvas_size) <= scale_divisor(outer, canvas_size),
{
    let a = extent(inner);
    let b = extent(outer);
    assert(a / canvas_size <= b / canvas_size) by (nonlinear_arith)
        requires
            a <= b,
            canvas_size >= 1,
    ;
}

/// Drawing one more sample changes the picture at the pixel of that sample
/// and nowhere else.
pub proof fn lemma_picture_grows(points: Seq<Point>, bbox: BoundingBox, canvas_size: int)
    requires
        canvas_size >= 1,
        points.len() > 0,
        bbox.contains(points.last()),
    ensures
        picture(points, bbox, canvas_size) == picture(points.drop_last(), bbox, canvas_size).insert(
            canvas_position(points.last(), bbox, canvas_size),
            foreground(),
        ),
{
    let front = points.drop_last();
    let last_at = canvas_position(points.last(), bbox, canvas_size);
    let before = picture(front, bbox, canvas_size);
    let after = picture(points, bbox, canvas_size);
    lemma_position_in_canvas(points.last(), bbox, canvas_size);
    assert forall|at: (int, int)| 0 <= at.0 < canvas_size && 0 <= at.1 < canvas_size implies (
    #[trigger] is_hit(points, bbox, canvas_size, at) <==> at == last_at || is_hit(
        front,
        bbox,
        canvas_size,
        at,
    )) by {
        if is_hit(front, bbox, canvas_size, at) {
            let i = choose|i: int|
                0 <= i < front.len() && #[trigger] canvas_position(front[i], bbox, canvas_size)
                    == at;
            assert(points[i] == front[i]);
        }
        if at == last_at {
            assert(canvas_position(points[points.len() - 1], bbox, canvas_size) == at);
        }
        if is_hit(points, bbox, canvas_size, at) {
            let i = choose|i: int|
                0 <= i < points.len() && #[trigger] canvas_position(points[i], bbox, canvas_size)
                    == at;
            if i < front.len() {
                assert(front[i] == points[i]);
            }
        }
    }
    assert(after =~= before.insert(last_at, foreground()));
}

} // verus!

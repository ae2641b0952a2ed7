//! Integer points of the plane and the axis-aligned boxes that bound them.

use vstd::prelude::*;

verus! {

/// An integer position in the plane: one sample of the traced curve.
#[derive(Clone, Copy, Debug, PartialEq, Eq, Structural)]
pub struct Point {
    pub x: i32,
    pub y: i32,
}

/// An axis-aligned box given by its two corners. It holds the points `p`
/// with `min.x <= p.x <= max.x` and `min.y <= p.y <= max.y`, so a box whose
/// `min` lies beyond its `max` on some axis holds no point at all.
#[derive(Clone, Copy, Debug, PartialEq, Eq, Structural)]
pub struct BoundingBox {
    pub min: Point,
    pub max: Point,
}

/// The smaller of two integers.
pub open spec fn lesser(a: int, b: int) -> int {
    if a <= b {
        a
    } else {
        b
    }
}

/// The larger of two integers.
pub open spec fn greater(a: int, b: int) -> int {
    if a >= b {
        a
    } else {
        b
    }
}

/// The box that every fold over samples starts from: it holds no point, and
/// stretching it to any point gives the box of that point alone.
pub open spec fn empty_box() -> BoundingBox {
    BoundingBox {
        min: Point { x: i32::MAX, y: i32::MAX },
        max: Point { x: i32::MIN, y: i32::MIN },
    }
}

/// The box of the points of `points`, folded from the left: the empty box for
/// no points, and otherwise the box of all but the last point, grown to hold
/// the last one.
pub open spec fn bounds_of(points: Seq<Point>) -> BoundingBox
    decreases points.len(),
{
    if points.len() == 0 {
        empty_box()
    } else {
        bounds_of(points.drop_last()).stretched_to(points.last())
    }
}

/// `bbox` is the smallest box around `points`: it holds each of them, and each
/// of its four sides passes through one of them. Of no points it is the empty
/// box.
pub open spec fn is_tight_box(bbox: BoundingBox, points: Seq<Point>) -> bool {
    if points.len() == 0 {
        bbox == empty_box()
    } else {
        &&& forall|i: int| 0 <= i < points.len() ==> bbox.contains(#[trigger] points[i])
        &&& exists|i: int| 0 <= i < points.len() && (#[trigger] points[i]).x == bbox.min.x
        &&& exists|i: int| 0 <= i < points.len() && (#[trigger] points[i]).y == bbox.min.y
        &&& exists|i: int| 0 <= i < points.len() && (#[trigger] points[i]).x == bbox.max.x
        &&& exists|i: int| 0 <= i < points.len() && (#[trigger] points[i]).y == bbox.max.y
    }
}

impl Point {
    pub fn new(x: i32, y: i32) -> (p: Point)
        ensures
            p == (Point { x, y }),
    {
        Point { x, y }
    }
}

impl BoundingBox {
    /// `p` lies inside the box, its border included.
    pub open spec fn contains(self, p: Point) -> bool {
        &&& self.min.x <= p.x <= self.max.x
        &&& self.min.y <= p.y <= self.max.y
    }

    /// The box holds at least one point.
    pub open spec fn is_inhabited(self) -> bool {
        &&& self.min.x <= self.max.x
        &&& self.min.y <= self.max.y
    }

    /// Every point of `inner` lies inside this box.
    pub open spec fn encloses(self, inner: BoundingBox) -> bool {
        &&& self.min.x <= inner.min.x
        &&& self.min.y <= inner.min.y
        &&& inner.max.x <= self.max.x
        &&& inner.max.y <= self.max.y
    }

    /// The box grown just enough to hold `p`: each corner moves, coordinate by
    /// coordinate, to the lesser (for `min`) or the greater (for `max`) of
    /// its own value and that of `p`.
    pub open spec fn stretched_to(self, p: Point) -> BoundingBox {
        BoundingBox {
            min: Point {
                x: lesser(self.min.x as int, p.x as int) as i32,
                y: lesser(self.min.y as int, p.y as int) as i32,
            },
            max: Point {
                x: greater(self.max.x as int, p.x as int) as i32,
                y: greater(self.max.y as int, p.y as int) as i32,
            },
        }
    }

    /// The box that holds no point.
    pub fn empty() -> (bbox: BoundingBox)
        ensures
            bbox == empty_box(),
    {
        BoundingBox {
            min: Point { x: i32::MAX, y: i32::MAX },
            max: Point { x: i32::MIN, y: i32::MIN },
        }
    }

    /// Grows the box to hold `p`.
    pub fn stretch_to(&self, p: Point) -> (bbox: BoundingBox)
        ensures
            bbox == self.stretched_to(p),
    {
        BoundingBox {
            min: Point {
                x: if self.min.x <= p.x { self.min.x } else { p.x },
                y: if self.min.y <= p.y { self.min.y } else { p.y },
            },
            max: Point {
                x: if self.max.x >= p.x { self.max.x } else { p.x },
                y: if self.max.y >= p.y { self.max.y } else { p.y },
            },
        }
    }

    /// Tells whether `p` lies inside the box.
    pub fn holds(&self, p: Point) -> (inside: bool)
        ensures
            inside == self.contains(p),
    {
        self.min.x <= p.x && p.x <= self.max.x && self.min.y <= p.y && p.y <= self.max.y
    }

    /// Tells whether every point of `points` lies inside the box.
    pub fn holds_all(&self, points: &Vec<Point>) -> (all: bool)
        ensures
            all == (forall|i: int| 0 <= i < points.len() ==> self.contains(#[trigger] points[i])),
    {
        let mut i: usize = 0;
        while i < points.len()
            invariant
                i <= points.len(),
                forall|j: int| 0 <= j < i ==> self.contains(#[trigger] points[j]),
            decreases points.len() - i,
        {
            if !self.holds(points[i]) {
                return false;
            }
            i += 1;
        }
        true
    }
}

/// The smallest box around the points of `points`.
pub fn bounding_box(points: &Vec<Point>) -> (bbox: BoundingBox)
    ensures
        bbox == bounds_of(points@),
        is_tight_box(bbox, points@),
{
    let mut bbox = BoundingBox::empty();
    let mut i: usize = 0;
    while i < points.len()
        invariant
            i <= points.len(),
            bbox == bounds_of(points@.take(i as int)),
        decreases points.len() - i,
    {
        proof {
            assert(points@.take(i + 1).drop_last() =~= points@.take(i as int));
        }
        bbox = bbox.stretch_to(points[i]);
        i += 1;
    }
    proof {
        assert(points@.take(i as int) =~= points@);
        lemma_bounds_are_tight(points@);
    }
    bbox
}

/// The fold `bounds_of` yields the smallest box around its points: every
/// point lies inside it, and each side of it passes through some point.
pub proof fn lemma_bounds_are_tight(points: Seq<Point>)
    ensures
        is_tight_box(bounds_of(points), points),
    decreases points.len(),
{
    if points.len() > 0 {
        let front = points.drop_last();
        let last = points.last();
        let inner = bounds_of(front);
        let outer = bounds_of(points);
        lemma_bounds_are_tight(front);
        assert(outer == inner.stretched_to(last));
        assert(points[points.len() - 1] == last);
        if front.len() == 0 {
            assert(outer == BoundingBox { min: last, max: last });
        } else {
            assert forall|i: int| 0 <= i < points.len() implies outer.contains(
                #[trigger] points[i],
            ) by {
                if i < front.len() {
                    assert(front[i] == points[i]);
                    assert(inner.contains(front[i]));
                }
            }
            let a = choose|i: int| 0 <= i < front.len() && (#[trigger] front[i]).x == inner.min.x;
            let b = choose|i: int| 0 <= i < front.len() && (#[trigger] front[i]).y == inner.min.y;
            let c = choose|i: int| 0 <= i < front.len() && (#[trigger] front[i]).x == inner.max.x;
            let d = choose|i: int| 0 <= i < front.len() && (#[trigger] front[i]).y == inner.max.y;
            assert(points[a] == front[a] && points[b] == front[b]);
            assert(points[c] == front[c] && points[d] == front[d]);
            let n = points.len() - 1;
            assert(points[a].x == outer.min.x || points[n].x == outer.min.x);
            assert(points[b].y == outer.min.y || points[n].y == outer.min.y);
            assert(points[c].x == outer.max.x || points[n].x == outer.max.x);
            assert(points[d].y == outer.max.y || points[n].y == outer.max.y);
        }
    }
}

/// Every point of a sequence lies inside the box folded from it.
pub proof fn lemma_bounds_contain(points: Seq<Point>, i: int)
    requires
        0 <= i < points.len(),
    ensures
        bounds_of(points).contains(points[i]),
        bounds_of(points).is_inhabited(),
{
    lemma_bounds_are_tight(points);
}

/// There is only one smallest box around given points.
pub proof fn lemma_tight_box_is_unique(a: BoundingBox, b: BoundingBox, points: Seq<Point>)
    requires
        is_tight_box(a, points),
        is_tight_box(b, points),
    ensures
        a == b,
{
    if points.len() > 0 {
        let i = choose|i: int| 0 <= i < points.len() && (#[trigger] points[i]).x == a.min.x;
        let j = choose|i: int| 0 <= i < points.len() && (#[trigger] points[i]).x == b.min.x;
        assert(b.contains(points[i]) && a.contains(points[j]));
        let i = choose|i: int| 0 <= i < points.len() && (#[trigger] points[i]).y == a.min.y;
        let j = choose|i: int| 0 <= i < points.len() && (#[trigger] points[i]).y == b.min.y;
        assert(b.contains(points[i]) && a.contains(points[j]));
        let i = choose|i: int| 0 <= i < points.len() && (#[trigger] points[i]).x == a.max.x;
        let j = choose|i: int| 0 <= i < points.len() && (#[trigger] points[i]).x == b.max.x;
        assert(b.contains(points[i]) && a.contains(points[j]));
        let i = choose|i: int| 0 <= i < points.len() && (#[trigger] points[i]).y == a.max.y;
        let j = choose|i: int| 0 <= i < points.len() && (#[trigger] points[i]).y == b.max.y;
        assert(b.contains(points[i]) && a.contains(points[j]));
    }
}

/// Where all points of a non-empty sequence coincide, the box around them
/// collapses to that one point.
pub proof fn lemma_bounds_of_one_place(points: Seq<Point>, place: Point)
    requires
        points.len() > 0,
        forall|i: int| 0 <= i < points.len() ==> #[trigger] points[i] == place,
    ensures
        bounds_of(points) == (BoundingBox { min: place, max: place }),
{
    lemma_bounds_are_tight(points);
    let bbox = bounds_of(points);
    let a = choose|i: int| 0 <= i < points.len() && (#[trigger] points[i]).x == bbox.min.x;
    let b = choose|i: int| 0 <= i < points.len() && (#[trigger] points[i]).y == bbox.min.y;
    let c = choose|i: int| 0 <= i < points.len() && (#[trigger] points[i]).x == bbox.max.x;
    let d = choose|i: int| 0 <= i < points.len() && (#[trigger] points[i]).y == bbox.max.y;
    assert(points[a] == place && points[b] == place && points[c] == place && points[d] == place);
}

/// A box degenerates to a single point only where all the points it was
/// folded from coincide.
pub proof fn lemma_degenerate_bounds(points: Seq<Point>, i: int)
    requires
        0 <= i < points.len(),
        bounds_of(points).min == bounds_of(points).max,
    ensures
        points[i] == bounds_of(points).min,
{
    lemma_bounds_are_tight(points);
    assert(bounds_of(points).contains(points[i]));
}

} // verus!

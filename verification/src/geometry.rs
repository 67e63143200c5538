//! Geometry of axis-aligned boxes: intersection, overlap, containment, support,
//! centre of mass and distance.

use vstd::prelude::*;
use crate::fixed::{abs, int_sqrt, isqrt, max, min, MAX_EXTENT, MAX_ITEMS, MAX_WEIGHT};
use crate::model::PlacedBox;
use crate::types::{BoundingBox, Vec3, EPSILON_GENERAL};

verus! {

/// Two placed boxes overlap on all three axes; boxes that only touch do not.
pub open spec fn boxes_intersect(a: PlacedBox, b: PlacedBox) -> bool {
    !(a.position.0 + a.object.dims.0 <= b.position.0 || b.position.0 + b.object.dims.0
        <= a.position.0 || a.position.1 + a.object.dims.1 <= b.position.1 || b.position.1
        + b.object.dims.1 <= a.position.1 || a.position.2 + a.object.dims.2 <= b.position.2
        || b.position.2 + b.object.dims.2 <= a.position.2)
}

/// Length of the common part of the intervals from `a1` to `a2` and from `b1` to `b2`;
/// zero when they are apart.
pub open spec fn overlap_len(a1: int, a2: int, b1: int, b2: int) -> int {
    max(0, min(a2, b2) - max(a1, b1))
}

/// Overlap of the footprints of two placed boxes along the x axis.
pub open spec fn overlap_x(a: PlacedBox, b: PlacedBox) -> int {
    overlap_len(
        a.position.0 as int,
        a.position.0 + a.object.dims.0,
        b.position.0 as int,
        b.position.0 + b.object.dims.0,
    )
}

/// Overlap of the footprints of two placed boxes along the y axis.
pub open spec fn overlap_y(a: PlacedBox, b: PlacedBox) -> int {
    overlap_len(
        a.position.1 as int,
        a.position.1 + a.object.dims.1,
        b.position.1 as int,
        b.position.1 + b.object.dims.1,
    )
}

/// Area that the footprints of two placed boxes have in common.
pub open spec fn footprint_overlap(a: PlacedBox, b: PlacedBox) -> int {
    overlap_x(a, b) * overlap_y(a, b)
}

/// A point lies inside a placed box, faces included.
pub open spec fn point_in_box(point: (i64, i64, i64), b: PlacedBox) -> bool {
    &&& b.position.0 <= point.0 <= b.position.0 + b.object.dims.0
    &&& b.position.1 <= point.1 <= b.position.1 + b.object.dims.1
    &&& b.position.2 <= point.2 <= b.position.2 + b.object.dims.2
}

/// The bottom of `upper` meets the top of `lower` within the tolerance.
pub open spec fn touches_top(upper: PlacedBox, lower: PlacedBox, height_epsilon: int) -> bool {
    abs(upper.position.2 - lower.spec_top_z()) <= height_epsilon
}

/// `upper` rests on `lower`: it meets its top within the tolerance, and the footprints
/// overlap by more than the general tolerance on both axes.
pub open spec fn box_rests_on(upper: PlacedBox, lower: PlacedBox, height_epsilon: int) -> bool {
    &&& touches_top(upper, lower, height_epsilon)
    &&& overlap_x(upper, lower) > EPSILON_GENERAL
    &&& overlap_y(upper, lower) > EPSILON_GENERAL
}

/// Area with which `upper` rests on `lower`; zero when it does not meet its top.
pub open spec fn contact_area(upper: PlacedBox, lower: PlacedBox, height_epsilon: int) -> int {
    if touches_top(upper, lower, height_epsilon) {
        footprint_overlap(upper, lower)
    } else {
        0
    }
}

/// Whether two placed boxes intersect. Boxes that are apart on at least one axis,
/// or only touch there, do not.
pub fn intersects(a: &PlacedBox, b: &PlacedBox) -> (r: bool)
    ensures
        r == boxes_intersect(*a, *b),
{
    let ax: i128 = a.position.0 as i128;
    let ay: i128 = a.position.1 as i128;
    let az: i128 = a.position.2 as i128;
    let bx: i128 = b.position.0 as i128;
    let by: i128 = b.position.1 as i128;
    let bz: i128 = b.position.2 as i128;
    !(ax + a.object.dims.0 as i128 <= bx || bx + b.object.dims.0 as i128 <= ax || ay
        + a.object.dims.1 as i128 <= by || by + b.object.dims.1 as i128 <= ay || az
        + a.object.dims.2 as i128 <= bz || bz + b.object.dims.2 as i128 <= az)
}

/// Whether two axis-aligned boxes intersect.
pub fn bounding_boxes_intersect(a: &BoundingBox, b: &BoundingBox) -> (r: bool)
    ensures
        r == a.spec_intersects(*b),
{
    a.intersects(b)
}

/// Overlap of two one-dimensional intervals, never negative.
pub fn overlap_1d(a1: i64, a2: i64, b1: i64, b2: i64) -> (r: i64)
    requires
        overlap_len(a1 as int, a2 as int, b1 as int, b2 as int) <= i64::MAX,
    ensures
        r == overlap_len(a1 as int, a2 as int, b1 as int, b2 as int),
{
    let hi: i64 = if a2 <= b2 { a2 } else { b2 };
    let lo: i64 = if a1 >= b1 { a1 } else { b1 };
    if hi > lo {
        (hi as i128 - lo as i128) as i64
    } else {
        0
    }
}

/// Area that the footprints of two placed boxes have in common.
pub fn overlap_area_xy(a: &PlacedBox, b: &PlacedBox) -> (r: i128)
    requires
        a.valid(),
        b.valid(),
    ensures
        r == footprint_overlap(*a, *b),
        0 <= r <= a.object.spec_base_area(),
{
    let ox: i64 = overlap_1d(
        a.position.0,
        a.position.0 + a.object.dims.0,
        b.position.0,
        b.position.0 + b.object.dims.0,
    );
    let oy: i64 = overlap_1d(
        a.position.1,
        a.position.1 + a.object.dims.1,
        b.position.1,
        b.position.1 + b.object.dims.1,
    );
    proof {
        lemma_overlap_within(*a, *b);
    }
    ox as i128 * oy as i128
}

/// The overlap of two footprints is at most each side of the first box, so their
/// common area is at most its base area.
pub proof fn lemma_overlap_within(a: PlacedBox, b: PlacedBox)
    requires
        a.valid(),
        b.valid(),
    ensures
        0 <= overlap_x(a, b) <= a.object.dims.0,
        0 <= overlap_y(a, b) <= a.object.dims.1,
        0 <= footprint_overlap(a, b) <= a.object.spec_base_area(),
        a.object.spec_base_area() <= 10_000_000_000_000_000_000_000,
{
    let ox = overlap_x(a, b);
    let oy = overlap_y(a, b);
    let w = a.object.dims.0 as int;
    let d = a.object.dims.1 as int;
    assert(0 <= ox * oy <= w * d) by (nonlinear_arith)
        requires
            0 <= ox <= w,
            0 <= oy <= d,
    ;
    crate::model::lemma_volume_bounds(w, d, 1);
}

/// Whether a point lies inside a placed box, faces included.
pub fn point_inside(point: (i64, i64, i64), placed_box: &PlacedBox) -> (r: bool)
    ensures
        r == point_in_box(point, *placed_box),
{
    let px: i128 = point.0 as i128;
    let py: i128 = point.1 as i128;
    let pz: i128 = point.2 as i128;
    let bx: i128 = placed_box.position.0 as i128;
    let by: i128 = placed_box.position.1 as i128;
    let bz: i128 = placed_box.position.2 as i128;
    px >= bx && px <= bx + placed_box.object.dims.0 as i128 && py >= by && py <= by
        + placed_box.object.dims.1 as i128 && pz >= bz && pz <= bz
        + placed_box.object.dims.2 as i128
}

/// Whether a point lies inside an axis-aligned box, faces included.
pub fn point_inside_bounds(point: &Vec3, bounds: &BoundingBox) -> (r: bool)
    ensures
        r == bounds.spec_contains_point(*point),
{
    bounds.contains_point(point)
}

/// Whether the bottom of `upper` meets the top of `lower` within the tolerance.
pub fn meets_top(upper: &PlacedBox, lower: &PlacedBox, height_epsilon: i64) -> (r: bool)
    requires
        upper.valid(),
        lower.valid(),
    ensures
        r == touches_top(*upper, *lower, height_epsilon as int),
{
    let bottom: i64 = upper.position.2;
    let top: i64 = lower.position.2 + lower.object.dims.2;
    let gap: i64 = if bottom >= top { bottom - top } else { top - bottom };
    gap <= height_epsilon
}

/// Whether `upper` rests on `lower`.
pub fn rests_on(upper: &PlacedBox, lower: &PlacedBox, height_epsilon: i64) -> (r: bool)
    requires
        upper.valid(),
        lower.valid(),
    ensures
        r == box_rests_on(*upper, *lower, height_epsilon as int),
{
    if !meets_top(upper, lower, height_epsilon) {
        return false;
    }
    let ox: i64 = overlap_1d(
        upper.position.0,
        upper.position.0 + upper.object.dims.0,
        lower.position.0,
        lower.position.0 + lower.object.dims.0,
    );
    let oy: i64 = overlap_1d(
        upper.position.1,
        upper.position.1 + upper.object.dims.1,
        lower.position.1,
        lower.position.1 + lower.object.dims.1,
    );
    ox > EPSILON_GENERAL && oy > EPSILON_GENERAL
}

/// Area with which `upper` rests on `lower`; zero when it does not meet its top.
pub fn support_area(upper: &PlacedBox, lower: &PlacedBox, height_epsilon: i64) -> (r: i128)
    requires
        upper.valid(),
        lower.valid(),
    ensures
        r == contact_area(*upper, *lower, height_epsilon as int),
{
    if !meets_top(upper, lower, height_epsilon) {
        return 0;
    }
    overlap_area_xy(upper, lower)
}

/// A weighted point `(x, y, weight)` within the range that the centre of mass supports.
pub open spec fn valid_point(p: (i64, i64, i64)) -> bool {
    &&& 0 <= p.0 <= MAX_EXTENT
    &&& 0 <= p.1 <= MAX_EXTENT
    &&& 0 <= p.2 <= MAX_WEIGHT
}

/// Every point of the sequence is valid.
pub open spec fn valid_points(points: Seq<(i64, i64, i64)>) -> bool {
    forall|i: int| 0 <= i < points.len() ==> valid_point(#[trigger] points[i])
}

/// Sum of the weights of the points.
pub open spec fn point_weight_sum(points: Seq<(i64, i64, i64)>) -> int
    decreases points.len(),
{
    if points.len() == 0 {
        0
    } else {
        point_weight_sum(points.drop_last()) + points.last().2
    }
}

/// Sum of the x coordinates of the points, each times its weight.
pub open spec fn moment_x(points: Seq<(i64, i64, i64)>) -> int
    decreases points.len(),
{
    if points.len() == 0 {
        0
    } else {
        moment_x(points.drop_last()) + points.last().0 * points.last().2
    }
}

/// Sum of the y coordinates of the points, each times its weight.
pub open spec fn moment_y(points: Seq<(i64, i64, i64)>) -> int
    decreases points.len(),
{
    if points.len() == 0 {
        0
    } else {
        moment_y(points.drop_last()) + points.last().1 * points.last().2
    }
}

/// Centre of mass of weighted points in the plane, each coordinate rounded down;
/// none when the total weight is zero.
pub open spec fn mass_center(points: Seq<(i64, i64, i64)>) -> Option<(int, int)> {
    let total = point_weight_sum(points);
    if total <= 0 {
        None
    } else {
        Some((moment_x(points) / total, moment_y(points) / total))
    }
}

/// The sums over valid points are bounded, and the centre of mass lies within the
/// range of the coordinates.
pub proof fn lemma_point_sums(points: Seq<(i64, i64, i64)>)
    requires
        valid_points(points),
    ensures
        0 <= point_weight_sum(points) <= points.len() * MAX_WEIGHT,
        0 <= moment_x(points) <= MAX_EXTENT * point_weight_sum(points),
        0 <= moment_y(points) <= MAX_EXTENT * point_weight_sum(points),
    decreases points.len(),
{
    if points.len() > 0 {
        let rest = points.drop_last();
        assert(valid_points(rest)) by {
            assert forall|i: int| 0 <= i < rest.len() implies valid_point(#[trigger] rest[i]) by {
                assert(rest[i] == points[i]);
            }
        }
        lemma_point_sums(rest);
        let p = points.last();
        assert(valid_point(p));
        let n = rest.len() as int;
        let w = p.2 as int;
        let tw = point_weight_sum(rest);
        assert((n + 1) * MAX_WEIGHT == n * MAX_WEIGHT + MAX_WEIGHT) by (nonlinear_arith);
        assert(0 <= p.0 * w <= MAX_EXTENT * w) by (nonlinear_arith)
            requires
                0 <= p.0 <= MAX_EXTENT,
                0 <= w,
        ;
        assert(0 <= p.1 * w <= MAX_EXTENT * w) by (nonlinear_arith)
            requires
                0 <= p.1 <= MAX_EXTENT,
                0 <= w,
        ;
        assert(MAX_EXTENT * (tw + w) == MAX_EXTENT * tw + MAX_EXTENT * w) by (nonlinear_arith);
    }
}

/// Appending a point adds its weight and its moments to the sums.
pub proof fn lemma_point_sums_push(points: Seq<(i64, i64, i64)>, p: (i64, i64, i64))
    ensures
        point_weight_sum(points.push(p)) == point_weight_sum(points) + p.2,
        moment_x(points.push(p)) == moment_x(points) + p.0 * p.2,
        moment_y(points.push(p)) == moment_y(points) + p.1 * p.2,
{
    assert(points.push(p).drop_last() =~= points);
}

/// A quotient of a bounded numerator stays within the bound.
pub proof fn lemma_quotient_within(m: int, total: int, bound: int)
    requires
        0 < total,
        0 <= m <= bound * total,
        0 <= bound,
    ensures
        0 <= m / total <= bound,
{
    assert(0 <= m / total <= bound) by (nonlinear_arith)
        requires
            0 < total,
            0 <= m <= bound * total,
            0 <= bound,
    ;
}

/// Centre of mass of weighted points `(x, y, weight)` in the plane; none when the
/// total weight is zero.
pub fn center_of_mass_xy(points: &Vec<(i64, i64, i64)>) -> (r: Option<(i64, i64)>)
    requires
        valid_points(points@),
        points@.len() <= MAX_ITEMS + 1,
    ensures
        r is Some <==> mass_center(points@) is Some,
        r matches Some(c) ==> mass_center(points@) == Some((c.0 as int, c.1 as int)) && 0 <= c.0
            <= MAX_EXTENT && 0 <= c.1 <= MAX_EXTENT,
{
    let mut total: i128 = 0;
    let mut mx: i128 = 0;
    let mut my: i128 = 0;
    let mut i: usize = 0;
    while i < points.len()
        invariant
            i <= points@.len() <= MAX_ITEMS + 1,
            valid_points(points@),
            total == point_weight_sum(points@.take(i as int)),
            mx == moment_x(points@.take(i as int)),
            my == moment_y(points@.take(i as int)),
            0 <= total <= i * MAX_WEIGHT,
            0 <= mx <= MAX_EXTENT * total,
            0 <= my <= MAX_EXTENT * total,
        decreases points@.len() - i,
    {
        let p = points[i];
        proof {
            let prev = points@.take(i as int);
            let next = points@.take(i as int + 1);
            assert(next =~= prev.push(p));
            lemma_point_sums_push(prev, p);
            assert(valid_points(next)) by {
                assert forall|k: int| 0 <= k < next.len() implies valid_point(
                    #[trigger] next[k],
                ) by {
                    assert(next[k] == points@[k]);
                }
            }
            lemma_point_sums(next);
            assert(valid_point(p));
            assert((i + 1) * MAX_WEIGHT <= (MAX_ITEMS + 1) * MAX_WEIGHT) by (nonlinear_arith)
                requires
                    i + 1 <= MAX_ITEMS + 1,
            ;
            assert(MAX_EXTENT * (total + p.2) <= MAX_EXTENT * ((MAX_ITEMS + 1) * MAX_WEIGHT))
                by (nonlinear_arith)
                requires
                    0 <= total + p.2 <= (MAX_ITEMS + 1) * MAX_WEIGHT,
            ;
            assert(0 <= p.0 * p.2 <= MAX_EXTENT * MAX_WEIGHT) by (nonlinear_arith)
                requires
                    0 <= p.0 <= MAX_EXTENT,
                    0 <= p.2 <= MAX_WEIGHT,
            ;
            assert(0 <= p.1 * p.2 <= MAX_EXTENT * MAX_WEIGHT) by (nonlinear_arith)
                requires
                    0 <= p.1 <= MAX_EXTENT,
                    0 <= p.2 <= MAX_WEIGHT,
            ;
        }
        total = total + p.2 as i128;
        mx = mx + p.0 as i128 * p.2 as i128;
        my = my + p.1 as i128 * p.2 as i128;
        i = i + 1;
    }
    proof {
        assert(points@.take(i as int) =~= points@);
    }
    if total <= 0 {
        None
    } else {
        proof {
            lemma_quotient_within(mx as int, total as int, MAX_EXTENT as int);
            lemma_quotient_within(my as int, total as int, MAX_EXTENT as int);
        }
        Some(((mx / total) as i64, (my / total) as i64))
    }
}

/// Distance between two points of the plane, rounded down.
pub open spec fn plane_distance(a: (int, int), b: (int, int)) -> int {
    int_sqrt((a.0 - b.0) * (a.0 - b.0) + (a.1 - b.1) * (a.1 - b.1))
}

/// Euclidean distance between two points of the plane, rounded down.
pub fn distance_2d(a: (i64, i64), b: (i64, i64)) -> (r: i64)
    requires
        -MAX_EXTENT <= a.0 <= MAX_EXTENT,
        -MAX_EXTENT <= a.1 <= MAX_EXTENT,
        -MAX_EXTENT <= b.0 <= MAX_EXTENT,
        -MAX_EXTENT <= b.1 <= MAX_EXTENT,
    ensures
        r == plane_distance((a.0 as int, a.1 as int), (b.0 as int, b.1 as int)),
        0 <= r <= 4 * MAX_EXTENT,
{
    let dx: i128 = a.0 as i128 - b.0 as i128;
    let dy: i128 = a.1 as i128 - b.1 as i128;
    let bound: i128 = 2 * MAX_EXTENT as i128;
    assert(0 <= dx * dx <= bound * bound && 0 <= dy * dy <= bound * bound) by (nonlinear_arith)
        requires
            -bound <= dx <= bound,
            -bound <= dy <= bound,
    ;
    assert(bound * bound == 360_000_000_000_000_000_000_000) by (nonlinear_arith)
        requires
            bound == 600_000_000_000,
    ;
    let sum: u128 = (dx * dx + dy * dy) as u128;
    let root: u64 = isqrt(sum);
    proof {
        if root > 4 * MAX_EXTENT {
            assert(root * root > sum) by (nonlinear_arith)
                requires
                    root > 1_200_000_000_000,
                    sum <= 720_000_000_000_000_000_000_000,
            ;
        }
    }
    root as i64
}

} // verus!

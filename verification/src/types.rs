//! Vectors, axis-aligned boxes, tolerances and small traits shared by the geometry and
//! the model.

use vstd::prelude::*;
use crate::fixed::{int_sqrt, isqrt, max, min, MAX_EXTENT, MAX_LENGTH, MAX_WEIGHT, SCALE};

pub mod validation;

verus! {

/// General tolerance for comparisons of lengths and weights: one millionth of a unit.
pub const EPSILON_GENERAL: i64 = 1;

/// Tolerance for comparisons of heights: one thousandth of a unit.
pub const EPSILON_HEIGHT: i64 = 1_000;

/// A point or an extent in space, in fixed-point coordinates.
#[derive(Clone, Copy, Debug, PartialEq, Eq, Structural)]
pub struct Vec3 {
    pub x: i64,
    pub y: i64,
    pub z: i64,
}

/// Half of a number, rounded towards zero.
pub open spec fn half(v: int) -> int {
    if v >= 0 {
        v / 2
    } else {
        -((-v) / 2)
    }
}

/// A fixed-point number times a fixed-point factor, rounded towards zero.
pub open spec fn scaled(v: int, factor: int) -> int {
    if v * factor >= 0 {
        v * factor / (SCALE as int)
    } else {
        -((-(v * factor)) / (SCALE as int))
    }
}

impl Vec3 {
    /// Every component lies within the largest extent, on either side of zero.
    pub open spec fn in_range(&self) -> bool {
        &&& -MAX_EXTENT <= self.x <= MAX_EXTENT
        &&& -MAX_EXTENT <= self.y <= MAX_EXTENT
        &&& -MAX_EXTENT <= self.z <= MAX_EXTENT
    }

    /// Product of the three components.
    pub open spec fn spec_volume(&self) -> int {
        self.x as int * self.y as int * self.z as int
    }

    /// Product of the first two components.
    pub open spec fn spec_base_area(&self) -> int {
        self.x as int * self.y as int
    }

    /// Every component is an acceptable length: strictly positive and in range.
    pub open spec fn spec_is_valid_dimension(&self) -> bool {
        1 <= self.x <= MAX_LENGTH && 1 <= self.y <= MAX_LENGTH && 1 <= self.z <= MAX_LENGTH
    }

    /// Every component is at most the matching component of `container` plus the
    /// tolerance.
    pub open spec fn spec_fits_within(&self, container: Vec3, tolerance: int) -> bool {
        self.x <= container.x + tolerance && self.y <= container.y + tolerance && self.z
            <= container.z + tolerance
    }

    /// Distance to another point in space, rounded down.
    pub open spec fn spec_distance_to(&self, other: Vec3) -> int {
        int_sqrt(
            (self.x - other.x) * (self.x - other.x) + (self.y - other.y) * (self.y - other.y) + (
            self.z - other.z) * (self.z - other.z),
        )
    }

    /// Distance to another point in the plane of x and y, rounded down.
    pub open spec fn spec_distance_2d(&self, other: Vec3) -> int {
        int_sqrt(
            (self.x - other.x) * (self.x - other.x) + (self.y - other.y) * (self.y - other.y),
        )
    }

    /// The vector with the given components.
    pub fn new(x: i64, y: i64, z: i64) -> (v: Self)
        ensures
            v.x == x && v.y == y && v.z == z,
    {
        Self { x, y, z }
    }

    /// The origin.
    pub fn zero() -> (v: Self)
        ensures
            v.x == 0 && v.y == 0 && v.z == 0,
    {
        Self { x: 0, y: 0, z: 0 }
    }

    /// The components as a triple.
    pub fn as_tuple(&self) -> (t: (i64, i64, i64))
        ensures
            t == (self.x, self.y, self.z),
    {
        (self.x, self.y, self.z)
    }

    /// The vector of a triple.
    pub fn from_tuple(tuple: (i64, i64, i64)) -> (v: Self)
        ensures
            v.x == tuple.0 && v.y == tuple.1 && v.z == tuple.2,
    {
        Self { x: tuple.0, y: tuple.1, z: tuple.2 }
    }

    /// Volume: the exact product of the three components.
    pub fn volume(&self) -> (v: i128)
        requires
            self.in_range(),
        ensures
            v == self.spec_volume(),
    {
        let m: i128 = MAX_EXTENT as i128;
        assert(-(m * m) <= self.x * self.y <= m * m) by (nonlinear_arith)
            requires
                -m <= self.x <= m,
                -m <= self.y <= m,
        ;
        assert(m * m == 90_000_000_000_000_000_000_000) by (nonlinear_arith)
            requires
                m == 300_000_000_000,
        ;
        let area: i128 = self.x as i128 * self.y as i128;
        assert(m * m == 90_000_000_000_000_000_000_000) by (nonlinear_arith)
            requires
                m == 300_000_000_000,
        ;
        assert(-(m * m * m) <= area * self.z <= m * m * m) by (nonlinear_arith)
            requires
                -(m * m) <= area <= m * m,
                -m <= self.z <= m,
                m >= 0,
        ;
        assert(m * m * m == 27_000_000_000_000_000_000_000_000_000_000_000) by (nonlinear_arith)
            requires
                m == 300_000_000_000,
        ;
        area * self.z as i128
    }

    /// Base area: the exact product of the first two components.
    pub fn base_area(&self) -> (a: i128)
        ensures
            a == self.spec_base_area(),
    {
        assert(-0x4000_0000_0000_0000_0000_0000_0000_0000 <= self.x * self.y
            <= 0x4000_0000_0000_0000_0000_0000_0000_0000) by (nonlinear_arith)
            requires
                -0x8000_0000_0000_0000 <= self.x <= 0x8000_0000_0000_0000,
                -0x8000_0000_0000_0000 <= self.y <= 0x8000_0000_0000_0000,
        ;
        self.x as i128 * self.y as i128
    }

    /// Distance to another point in space, rounded down.
    pub fn distance_to(&self, other: &Self) -> (d: i64)
        requires
            self.in_range(),
            other.in_range(),
        ensures
            d == self.spec_distance_to(*other),
            d >= 0,
    {
        let dx: i128 = self.x as i128 - other.x as i128;
        let dy: i128 = self.y as i128 - other.y as i128;
        let dz: i128 = self.z as i128 - other.z as i128;
        let bound: i128 = 2 * MAX_EXTENT as i128;
        assert(0 <= dx * dx <= bound * bound && 0 <= dy * dy <= bound * bound && 0 <= dz * dz
            <= bound * bound) by (nonlinear_arith)
            requires
                -bound <= dx <= bound,
                -bound <= dy <= bound,
                -bound <= dz <= bound,
        ;
        assert(bound * bound == 360_000_000_000_000_000_000_000) by (nonlinear_arith)
            requires
                bound == 600_000_000_000,
        ;
        let sum: u128 = (dx * dx + dy * dy + dz * dz) as u128;
        let root: u64 = isqrt(sum);
        proof {
            if root > 2_000_000_000_000 {
                assert(root * root > sum) by (nonlinear_arith)
                    requires
                        root > 2_000_000_000_000,
                        sum <= 1_080_000_000_000_000_000_000_000,
                ;
            }
        }
        root as i64
    }

    /// Distance to another point in the plane of x and y, rounded down.
    pub fn distance_2d(&self, other: &Self) -> (d: i64)
        requires
            self.in_range(),
            other.in_range(),
        ensures
            d == self.spec_distance_2d(*other),
            d >= 0,
    {
        crate::geometry::distance_2d((self.x, self.y), (other.x, other.y))
    }

    /// Whether every component is an acceptable length.
    pub fn is_valid_dimension(&self) -> (r: bool)
        ensures
            r == self.spec_is_valid_dimension(),
    {
        self.x > 0 && self.y > 0 && self.z > 0 && self.x <= MAX_LENGTH && self.y <= MAX_LENGTH
            && self.z <= MAX_LENGTH
    }

    /// Whether every component is at most the matching component of `container` plus
    /// the tolerance.
    pub fn fits_within(&self, container: &Self, tolerance: i64) -> (r: bool)
        ensures
            r == self.spec_fits_within(*container, tolerance as int),
    {
        self.x as i128 <= container.x as i128 + tolerance as i128 && self.y as i128
            <= container.y as i128 + tolerance as i128 && self.z as i128 <= container.z as i128
            + tolerance as i128
    }

    /// The point half way between the origin and this point, each component rounded
    /// towards zero.
    pub fn center(&self) -> (c: Self)
        ensures
            c.x == half(self.x as int) && c.y == half(self.y as int) && c.z == half(self.z as int),
    {
        Self { x: half_of(self.x), y: half_of(self.y), z: half_of(self.z) }
    }
}

/// Half of a number, rounded towards zero.
pub fn half_of(v: i64) -> (r: i64)
    ensures
        r == half(v as int),
{
    if v >= 0 {
        v / 2
    } else if v == i64::MIN {
        -0x4000_0000_0000_0000
    } else {
        -((-v) / 2)
    }
}

impl core::ops::Add for Vec3 {
    type Output = Vec3;

    fn add(self, rhs: Vec3) -> (r: Vec3) {
        Vec3 { x: self.x + rhs.x, y: self.y + rhs.y, z: self.z + rhs.z }
    }
}

impl vstd::std_specs::ops::AddSpecImpl for Vec3 {
    open spec fn obeys_add_spec() -> bool {
        true
    }

    open spec fn add_req(self, rhs: Vec3) -> bool {
        &&& i64::MIN <= self.x + rhs.x <= i64::MAX
        &&& i64::MIN <= self.y + rhs.y <= i64::MAX
        &&& i64::MIN <= self.z + rhs.z <= i64::MAX
    }

    open spec fn add_spec(self, rhs: Vec3) -> Vec3 {
        Vec3 { x: (self.x + rhs.x) as i64, y: (self.y + rhs.y) as i64, z: (self.z + rhs.z) as i64 }
    }
}

impl core::ops::Sub for Vec3 {
    type Output = Vec3;

    fn sub(self, rhs: Vec3) -> (r: Vec3) {
        Vec3 { x: self.x - rhs.x, y: self.y - rhs.y, z: self.z - rhs.z }
    }
}

impl vstd::std_specs::ops::SubSpecImpl for Vec3 {
    open spec fn obeys_sub_spec() -> bool {
        true
    }

    open spec fn sub_req(self, rhs: Vec3) -> bool {
        &&& i64::MIN <= self.x - rhs.x <= i64::MAX
        &&& i64::MIN <= self.y - rhs.y <= i64::MAX
        &&& i64::MIN <= self.z - rhs.z <= i64::MAX
    }

    open spec fn sub_spec(self, rhs: Vec3) -> Vec3 {
        Vec3 { x: (self.x - rhs.x) as i64, y: (self.y - rhs.y) as i64, z: (self.z - rhs.z) as i64 }
    }
}

/// A fixed-point number times a fixed-point factor, rounded towards zero.
pub fn scale_by(v: i64, factor: i64) -> (r: i64)
    requires
        -MAX_EXTENT <= v <= MAX_EXTENT,
        -MAX_WEIGHT <= factor <= MAX_WEIGHT,
    ensures
        r == scaled(v as int, factor as int),
{
    assert(-300_000_000_000_000_000_000_000 <= v * factor <= 300_000_000_000_000_000_000_000)
        by (nonlinear_arith)
        requires
            -300_000_000_000 <= v <= 300_000_000_000,
            -1_000_000_000_000 <= factor <= 1_000_000_000_000,
    ;
    let product: i128 = v as i128 * factor as i128;
    if product >= 0 {
        (product / 1_000_000) as i64
    } else {
        (-((-product) / 1_000_000)) as i64
    }
}

impl core::ops::Mul<i64> for Vec3 {
    type Output = Vec3;

    fn mul(self, scalar: i64) -> (r: Vec3) {
        Vec3 {
            x: scale_by(self.x, scalar),
            y: scale_by(self.y, scalar),
            z: scale_by(self.z, scalar),
        }
    }
}

impl vstd::std_specs::ops::MulSpecImpl<i64> for Vec3 {
    open spec fn obeys_mul_spec() -> bool {
        true
    }

    open spec fn mul_req(self, scalar: i64) -> bool {
        self.in_range() && -MAX_WEIGHT <= scalar <= MAX_WEIGHT
    }

    open spec fn mul_spec(self, scalar: i64) -> Vec3 {
        Vec3 {
            x: scaled(self.x as int, scalar as int) as i64,
            y: scaled(self.y as int, scalar as int) as i64,
            z: scaled(self.z as int, scalar as int) as i64,
        }
    }
}

impl From<(i64, i64, i64)> for Vec3 {
    fn from(tuple: (i64, i64, i64)) -> (v: Vec3) {
        Vec3::from_tuple(tuple)
    }
}

impl vstd::std_specs::convert::FromSpecImpl<(i64, i64, i64)> for Vec3 {
    open spec fn obeys_from_spec() -> bool {
        true
    }

    open spec fn from_spec(tuple: (i64, i64, i64)) -> Vec3 {
        Vec3 { x: tuple.0, y: tuple.1, z: tuple.2 }
    }
}

/// Something with three side lengths.
pub trait Dimensional {
    /// The side lengths.
    spec fn spec_dimensions(&self) -> Vec3;

    /// The side lengths.
    fn dimensions(&self) -> (d: Vec3)
        ensures
            d == self.spec_dimensions(),
    ;

    /// Volume: the exact product of the side lengths.
    fn volume(&self) -> (v: i128)
        requires
            self.spec_dimensions().in_range(),
        ensures
            v == self.spec_dimensions().spec_volume(),
    {
        self.dimensions().volume()
    }

    /// Base area: the exact product of width and depth.
    fn base_area(&self) -> (a: i128)
        ensures
            a == self.spec_dimensions().spec_base_area(),
    {
        self.dimensions().base_area()
    }

    /// Whether every side is at most the matching side of a container plus the
    /// tolerance.
    fn fits_in(&self, container_dims: &Vec3, tolerance: i64) -> (r: bool)
        ensures
            r == self.spec_dimensions().spec_fits_within(*container_dims, tolerance as int),
    {
        self.dimensions().fits_within(container_dims, tolerance)
    }
}

/// Something with a position in space.
pub trait Positioned {
    /// The position of the lower corner.
    spec fn spec_position(&self) -> Vec3;

    /// The position of the lower corner.
    fn position(&self) -> (p: Vec3)
        ensures
            p == self.spec_position(),
    ;
}

/// Something with a weight.
pub trait Weighted {
    /// The weight.
    spec fn spec_weight(&self) -> i64;

    /// The weight.
    fn weight(&self) -> (w: i64)
        ensures
            w == self.spec_weight(),
    ;
}

/// An axis-aligned box given by its lowest and its highest corner.
#[derive(Clone, Copy, Debug, PartialEq, Eq, Structural)]
pub struct BoundingBox {
    pub min: Vec3,
    pub max: Vec3,
}

impl BoundingBox {
    /// Both corners lie within the largest extent, on either side of zero.
    pub open spec fn in_range(&self) -> bool {
        self.min.in_range() && self.max.in_range()
    }

    /// The boxes overlap on all three axes; boxes that only touch do not.
    pub open spec fn spec_intersects(&self, other: Self) -> bool {
        !(self.max.x <= other.min.x || other.max.x <= self.min.x || self.max.y <= other.min.y
            || other.max.y <= self.min.y || self.max.z <= other.min.z || other.max.z
            <= self.min.z)
    }

    /// The point lies inside the box, faces included.
    pub open spec fn spec_contains_point(&self, point: Vec3) -> bool {
        &&& self.min.x <= point.x <= self.max.x
        &&& self.min.y <= point.y <= self.max.y
        &&& self.min.z <= point.z <= self.max.z
    }

    /// Length of the common part of two intervals; zero when they are apart.
    pub open spec fn spec_overlap(a_min: int, a_max: int, b_min: int, b_max: int) -> int {
        max(0, min(a_max, b_max) - max(a_min, b_min))
    }

    /// Area that the footprints of the two boxes have in common.
    pub open spec fn spec_overlap_area_xy(&self, other: Self) -> int {
        Self::spec_overlap(
            self.min.x as int,
            self.max.x as int,
            other.min.x as int,
            other.max.x as int,
        ) * Self::spec_overlap(
            self.min.y as int,
            self.max.y as int,
            other.min.y as int,
            other.max.y as int,
        )
    }

    /// The box with the given corners.
    pub fn new(min: Vec3, max: Vec3) -> (b: Self)
        ensures
            b.min == min && b.max == max,
    {
        Self { min, max }
    }

    /// The box that starts at `position` and extends by `dims`.
    pub fn from_position_and_dims(position: Vec3, dims: Vec3) -> (b: Self)
        requires
            i64::MIN <= position.x + dims.x <= i64::MAX,
            i64::MIN <= position.y + dims.y <= i64::MAX,
            i64::MIN <= position.z + dims.z <= i64::MAX,
        ensures
            b.min == position,
            b.max.x == position.x + dims.x,
            b.max.y == position.y + dims.y,
            b.max.z == position.z + dims.z,
    {
        Self {
            min: position,
            max: Vec3 { x: position.x + dims.x, y: position.y + dims.y, z: position.z + dims.z },
        }
    }

    /// Whether two boxes intersect. Boxes that are apart on at least one axis, or only
    /// touch there, do not.
    pub fn intersects(&self, other: &Self) -> (r: bool)
        ensures
            r == self.spec_intersects(*other),
    {
        !(self.max.x <= other.min.x || other.max.x <= self.min.x || self.max.y <= other.min.y
            || other.max.y <= self.min.y || self.max.z <= other.min.z || other.max.z
            <= self.min.z)
    }

    /// Overlap of two intervals, never negative.
    fn overlap_1d(a_min: i64, a_max: i64, b_min: i64, b_max: i64) -> (r: i128)
        ensures
            r == Self::spec_overlap(a_min as int, a_max as int, b_min as int, b_max as int),
            0 <= r <= 0x1_0000_0000_0000_0000,
    {
        let hi: i64 = if a_max <= b_max { a_max } else { b_max };
        let lo: i64 = if a_min >= b_min { a_min } else { b_min };
        if hi > lo {
            hi as i128 - lo as i128
        } else {
            0
        }
    }

    /// Area that the footprints of the two boxes have in common.
    pub fn overlap_area_xy(&self, other: &Self) -> (r: i128)
        requires
            self.in_range(),
            other.in_range(),
        ensures
            r == self.spec_overlap_area_xy(*other),
            r >= 0,
    {
        let ox: i128 = Self::overlap_1d(self.min.x, self.max.x, other.min.x, other.max.x);
        let oy: i128 = Self::overlap_1d(self.min.y, self.max.y, other.min.y, other.max.y);
        assert(0 <= ox * oy <= 600_000_000_000 * 600_000_000_000) by (nonlinear_arith)
            requires
                0 <= ox <= 600_000_000_000,
                0 <= oy <= 600_000_000_000,
        ;
        ox * oy
    }

    /// Whether a point lies inside the box, faces included.
    pub fn contains_point(&self, point: &Vec3) -> (r: bool)
        ensures
            r == self.spec_contains_point(*point),
    {
        point.x >= self.min.x && point.x <= self.max.x && point.y >= self.min.y && point.y
            <= self.max.y && point.z >= self.min.z && point.z <= self.max.z
    }

    /// Height of the top face.
    pub fn top_z(&self) -> (z: i64)
        ensures
            z == self.max.z,
    {
        self.max.z
    }

    /// The middle of the box, each component rounded towards zero.
    pub fn center(&self) -> (c: Vec3)
        requires
            self.in_range(),
        ensures
            c.x == half(self.min.x + self.max.x),
            c.y == half(self.min.y + self.max.y),
            c.z == half(self.min.z + self.max.z),
    {
        Vec3 {
            x: half_of(self.min.x + self.max.x),
            y: half_of(self.min.y + self.max.y),
            z: half_of(self.min.z + self.max.z),
        }
    }

    /// The side lengths: the highest corner less the lowest.
    pub fn dimensions(&self) -> (d: Vec3)
        requires
            self.in_range(),
        ensures
            d.x == self.max.x - self.min.x,
            d.y == self.max.y - self.min.y,
            d.z == self.max.z - self.min.z,
    {
        Vec3 {
            x: self.max.x - self.min.x,
            y: self.max.y - self.min.y,
            z: self.max.z - self.min.z,
        }
    }
}

/// Accumulates weighted points of the plane for their centre of mass.
#[derive(Clone, Copy, Debug)]
pub struct CenterOfMassCalculator {
    pub weighted_x: i128,
    pub weighted_y: i128,
    pub total_weight: i128,
}

/// Largest total weight that the calculator takes: that of the largest number of boxes of
/// a container and one more, each of the largest weight.
pub const MAX_TOTAL_WEIGHT: i128 = 100_001_000_000_000_000;

impl CenterOfMassCalculator {
    /// The sums stay in the range of the calculator: the total weight is at most the
    /// largest total weight, and each moment is between zero and the largest extent
    /// times the total weight.
    pub open spec fn valid(&self) -> bool {
        &&& 0 <= self.total_weight <= MAX_TOTAL_WEIGHT
        &&& 0 <= self.weighted_x <= MAX_EXTENT * self.total_weight
        &&& 0 <= self.weighted_y <= MAX_EXTENT * self.total_weight
    }

    /// The centre of mass of the points taken in so far, each coordinate rounded down;
    /// none when the total weight is zero.
    pub open spec fn spec_compute(&self) -> Option<(int, int)> {
        if self.total_weight <= 0 {
            None
        } else {
            Some((self.weighted_x / self.total_weight, self.weighted_y / self.total_weight))
        }
    }

    /// The calculator without points.
    pub fn new() -> (c: Self)
        ensures
            c.weighted_x == 0 && c.weighted_y == 0 && c.total_weight == 0,
            c.valid(),
    {
        Self { weighted_x: 0, weighted_y: 0, total_weight: 0 }
    }

    /// Takes in a point with its weight.
    pub fn add_point(&mut self, x: i64, y: i64, weight: i64)
        requires
            old(self).valid(),
            0 <= x <= MAX_EXTENT,
            0 <= y <= MAX_EXTENT,
            0 <= weight <= MAX_WEIGHT,
            old(self).total_weight + weight <= MAX_TOTAL_WEIGHT,
        ensures
            final(self).weighted_x == old(self).weighted_x + x * weight,
            final(self).weighted_y == old(self).weighted_y + y * weight,
            final(self).total_weight == old(self).total_weight + weight,
            final(self).valid(),
    {
        proof {
            let t = self.total_weight as int;
            let w = weight as int;
            assert(0 <= x * w <= MAX_EXTENT * w) by (nonlinear_arith)
                requires
                    0 <= x <= MAX_EXTENT,
                    0 <= w,
            ;
            assert(0 <= y * w <= MAX_EXTENT * w) by (nonlinear_arith)
                requires
                    0 <= y <= MAX_EXTENT,
                    0 <= w,
            ;
            assert(MAX_EXTENT * (t + w) == MAX_EXTENT * t + MAX_EXTENT * w) by (nonlinear_arith);
            assert(MAX_EXTENT * (t + w) <= MAX_EXTENT * MAX_TOTAL_WEIGHT) by (nonlinear_arith)
                requires
                    0 <= t + w <= MAX_TOTAL_WEIGHT,
            ;
        }
        self.weighted_x = self.weighted_x + x as i128 * weight as i128;
        self.weighted_y = self.weighted_y + y as i128 * weight as i128;
        self.total_weight = self.total_weight + weight as i128;
    }

    /// The centre of mass; none when the total weight is zero.
    pub fn compute(&self) -> (r: Option<(i64, i64)>)
        requires
            self.valid(),
        ensures
            r is Some <==> self.spec_compute() is Some,
            r matches Some(c) ==> self.spec_compute() == Some((c.0 as int, c.1 as int)) && 0
                <= c.0 <= MAX_EXTENT && 0 <= c.1 <= MAX_EXTENT,
    {
        if self.total_weight <= 0 {
            None
        } else {
            proof {
                crate::geometry::lemma_quotient_within(
                    self.weighted_x as int,
                    self.total_weight as int,
                    MAX_EXTENT as int,
                );
                crate::geometry::lemma_quotient_within(
                    self.weighted_y as int,
                    self.total_weight as int,
                    MAX_EXTENT as int,
                );
            }
            Some(
                (
                    (self.weighted_x / self.total_weight) as i64,
                    (self.weighted_y / self.total_weight) as i64,
                ),
            )
        }
    }

    /// Distance of the centre of mass from a reference point, rounded down; zero when
    /// the total weight is zero.
    pub fn distance_to(&self, reference: (i64, i64)) -> (d: i64)
        requires
            self.valid(),
            -MAX_EXTENT <= reference.0 <= MAX_EXTENT,
            -MAX_EXTENT <= reference.1 <= MAX_EXTENT,
        ensures
            d == (match self.spec_compute() {
                Some(c) => crate::geometry::plane_distance(
                    c,
                    (reference.0 as int, reference.1 as int),
                ),
                None => 0,
            }),
    {
        match self.compute() {
            Some(c) => crate::geometry::distance_2d(c, reference),
            None => 0,
        }
    }
}

impl Default for CenterOfMassCalculator {
    fn default() -> (c: Self)
        ensures
            c.weighted_x == 0 && c.weighted_y == 0 && c.total_weight == 0,
    {
        Self { weighted_x: 0, weighted_y: 0, total_weight: 0 }
    }
}

} // verus!

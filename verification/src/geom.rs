//! Plane geometry in fixed-point coordinates: vectors, circles, rectangles
//! and the tests that tell whether two shapes meet.

use vstd::prelude::*;
use crate::config::UNIT;
use crate::fixed::{
    div_toward_zero, is_unit_part, lemma_unit_part_exists, lemma_unit_part_scales, spec_unit_part,
    unit_part,
};

verus! {

/// Bound on a coordinate under which the sum of two vectors always fits.
pub const REACH: i32 = 1_000_000_000;

/// Bound on the components that [`unit_vector`] accepts: the difference of
/// any two coordinates lies well within it.
pub const SPAN: i64 = 3_000_000_000;

/// A point or a displacement in the plane.
#[derive(Clone, Copy, Debug, PartialEq, Eq, Structural)]
pub struct Vector {
    pub x: i32,
    pub y: i32,
}

/// A disc, given by its centre and radius.
#[derive(Clone, Copy, Debug, PartialEq, Eq, Structural)]
pub struct Circle {
    pub pos: Vector,
    pub radius: i32,
}

/// An axis-parallel rectangle, given by its top left corner and its size.
#[derive(Clone, Copy, Debug, PartialEq, Eq, Structural)]
pub struct Rectangle {
    pub pos: Vector,
    pub size: Vector,
}

/// The vector with the given components, which are meant to fit in `i32`.
pub open spec fn vec2(x: int, y: int) -> Vector {
    Vector { x: x as i32, y: y as i32 }
}

/// One component of a unit vector: the share that `d` has in the length
/// `sqrt(n)`, in thousandths and rounded toward zero, with the sign of `d`.
pub open spec fn spec_unit_component(d: int, n: int) -> int {
    if d >= 0 {
        spec_unit_part(d, n)
    } else {
        -spec_unit_part(-d, n)
    }
}

/// The vector of length one (that is, `UNIT`) that points along `(dx, dy)`:
/// each component is that of the exact unit vector, rounded toward zero. The
/// zero vector has no direction and stays zero.
pub open spec fn spec_unit_vector(dx: int, dy: int) -> Vector {
    let n = dx * dx + dy * dy;
    if n == 0 {
        Vector { x: 0, y: 0 }
    } else {
        vec2(spec_unit_component(dx, n), spec_unit_component(dy, n))
    }
}

/// `v` held between `lo` and `hi`; where the bounds cross, `hi` wins.
pub open spec fn spec_clamp(v: int, lo: int, hi: int) -> int {
    let raised = if v < lo { lo } else { v };
    if raised > hi { hi } else { raised }
}

/// Two discs overlap when their centres are closer than the sum of the radii.
pub open spec fn spec_circles_overlap(a: Circle, b: Circle) -> bool {
    let dx = a.pos.x - b.pos.x;
    let dy = a.pos.y - b.pos.y;
    let reach = a.radius + b.radius;
    reach > 0 && dx * dx + dy * dy < reach * reach
}

/// A disc overlaps a rectangle when the point of the rectangle that is
/// closest to the disc's centre is closer to it than the radius.
pub open spec fn spec_circle_overlaps_rectangle(c: Circle, r: Rectangle) -> bool {
    let dx = spec_clamp(c.pos.x as int, r.pos.x as int, r.pos.x + r.size.x) - c.pos.x;
    let dy = spec_clamp(c.pos.y as int, r.pos.y as int, r.pos.y + r.size.y) - c.pos.y;
    c.radius > 0 && dx * dx + dy * dy < c.radius * c.radius
}

proof fn lemma_unit_parts_length(ax: int, ay: int, n: int, qx: int, qy: int)
    requires
        0 < n,
        n == ax * ax + ay * ay,
        is_unit_part(ax, n, qx),
        is_unit_part(ay, n, qy),
    ensures
        qx * qx + qy * qy <= UNIT * UNIT,
        qx * qx + qy * qy >= (UNIT - 2) * (UNIT - 2),
        0 <= qx <= UNIT,
        0 <= qy <= UNIT,
{
    let u: int = UNIT * UNIT;
    let sx = qx * qx;
    let sy = qy * qy;
    let tx = (qx + 1) * (qx + 1);
    let ty = (qy + 1) * (qy + 1);
    let dx2 = ax * ax;
    let dy2 = ay * ay;
    assert(u == 1_000_000 && (UNIT - 2) * (UNIT - 2) == 996_004) by (nonlinear_arith)
        requires
            u == UNIT * UNIT,
            UNIT == 1000,
    ;
    assert((sx + sy) * n <= u * n < (tx + ty) * n) by (nonlinear_arith)
        requires
            sx * n <= u * dx2,
            sy * n <= u * dy2,
            tx * n > u * dx2,
            ty * n > u * dy2,
            n == dx2 + dy2,
    ;
    assert(sx + sy <= u < tx + ty) by (nonlinear_arith)
        requires
            (sx + sy) * n <= u * n < (tx + ty) * n,
            0 < n,
    ;
    assert(qx + qy <= 1_414 && qx <= 1_000 && qy <= 1_000) by (nonlinear_arith)
        requires
            0 <= qx,
            0 <= qy,
            qx * qx + qy * qy <= 1_000_000,
    ;
    assert(tx + ty == sx + sy + 2 * (qx + qy) + 2) by (nonlinear_arith)
        requires
            sx == qx * qx,
            sy == qy * qy,
            tx == (qx + 1) * (qx + 1),
            ty == (qy + 1) * (qy + 1),
    ;
}

/// A unit vector is never longer than one and, unless it is zero, shorter by
/// two thousandths at most; its components have the signs of the direction.
pub proof fn lemma_unit_vector_length(dx: int, dy: int)
    ensures
        spec_unit_vector(dx, dy).spec_len2() <= UNIT * UNIT,
        dx != 0 || dy != 0 ==> spec_unit_vector(dx, dy).spec_len2() >= (UNIT - 2) * (UNIT - 2),
        -UNIT <= spec_unit_vector(dx, dy).x <= UNIT,
        -UNIT <= spec_unit_vector(dx, dy).y <= UNIT,
        (dx >= 0 ==> spec_unit_vector(dx, dy).x >= 0) && (dx <= 0 ==> spec_unit_vector(dx, dy).x
            <= 0),
        (dy >= 0 ==> spec_unit_vector(dx, dy).y >= 0) && (dy <= 0 ==> spec_unit_vector(dx, dy).y
            <= 0),
{
    let ax = if dx < 0 { -dx } else { dx };
    let ay = if dy < 0 { -dy } else { dy };
    let n = dx * dx + dy * dy;
    assert(ax * ax == dx * dx && ay * ay == dy * dy && 0 <= ax * ax && 0 <= ay * ay) by (
    nonlinear_arith)
        requires
            ax == dx || ax == -dx,
            ay == dy || ay == -dy,
    ;
    if n == 0 {
        assert(0 * 0 + 0 * 0 <= UNIT * UNIT) by (nonlinear_arith);
        assert(dx == 0 && dy == 0) by (nonlinear_arith)
            requires
                dx * dx + dy * dy == 0,
        ;
    } else {
        lemma_unit_part_exists(ax, n);
        lemma_unit_part_exists(ay, n);
        let qx = spec_unit_part(ax, n);
        let qy = spec_unit_part(ay, n);
        lemma_unit_parts_length(ax, ay, n, qx, qy);
        if ax == 0 {
            lemma_unit_part_of_nothing(n);
        }
        if ay == 0 {
            lemma_unit_part_of_nothing(n);
        }
        let r = spec_unit_vector(dx, dy);
        assert(r.x == qx || r.x == -qx);
        assert(r.y == qy || r.y == -qy);
        assert(r.x * r.x == qx * qx && r.y * r.y == qy * qy) by (nonlinear_arith)
            requires
                r.x == qx || r.x == -qx,
                r.y == qy || r.y == -qy,
        ;
    }
}

proof fn lemma_unit_part_of_nothing(n: int)
    requires
        0 < n,
    ensures
        spec_unit_part(0, n) == 0,
{
    assert(0 * 0 * n <= UNIT * UNIT * (0 * 0) < (0 + 1) * (0 + 1) * n) by (nonlinear_arith)
        requires
            0 < n,
    ;
    assert(is_unit_part(0, n, 0));
    crate::fixed::lemma_unit_part_is(0, n, 0);
}

/// Only the direction counts: a vector and the same vector stretched have the
/// same unit vector.
pub proof fn lemma_unit_vector_scales(dx: int, dy: int, k: int)
    requires
        0 < k,
    ensures
        spec_unit_vector(k * dx, k * dy) == spec_unit_vector(dx, dy),
{
    let ax = if dx < 0 { -dx } else { dx };
    let ay = if dy < 0 { -dy } else { dy };
    let n = dx * dx + dy * dy;
    let stretched = (k * dx) * (k * dx) + (k * dy) * (k * dy);
    assert(stretched == k * k * n) by (nonlinear_arith)
        requires
            stretched == (k * dx) * (k * dx) + (k * dy) * (k * dy),
            n == dx * dx + dy * dy,
    ;
    assert(ax * ax <= n && ay * ay <= n && 0 <= n) by (nonlinear_arith)
        requires
            ax == dx || ax == -dx,
            ay == dy || ay == -dy,
            n == dx * dx + dy * dy,
    ;
    assert((n == 0 <==> k * k * n == 0) && (dx >= 0 <==> k * dx >= 0) && (dy >= 0 <==> k * dy
        >= 0) && k * ax == (if dx >= 0 { k * dx } else { -(k * dx) }) && k * ay == (if dy >= 0 {
        k * dy
    } else {
        -(k * dy)
    })) by (nonlinear_arith)
        requires
            0 < k,
            0 <= n,
            ax == (if dx >= 0 { dx } else { -dx }),
            ay == (if dy >= 0 { dy } else { -dy }),
    ;
    if n != 0 {
        lemma_unit_part_scales(ax, n, k);
        lemma_unit_part_scales(ay, n, k);
    }
}

/// The square of a difference of coordinates, widened so that it fits.
fn square(d: i64) -> (r: i128)
    requires
        -0x2_0000_0000 <= d <= 0x2_0000_0000,
    ensures
        r == d * d,
        0 <= r <= 0x4_0000_0000_0000_0000,
{
    assert(0 <= d * d <= 0x4_0000_0000_0000_0000) by (nonlinear_arith)
        requires
            -0x2_0000_0000 <= d <= 0x2_0000_0000,
    ;
    (d as i128) * (d as i128)
}

/// Holds `v` between `lo` and `hi`.
fn clamp(v: i64, lo: i64, hi: i64) -> (r: i64)
    ensures
        r == spec_clamp(v as int, lo as int, hi as int),
{
    let raised: i64 = if v < lo { lo } else { v };
    if raised > hi { hi } else { raised }
}

/// Computes the unit vector along `(dx, dy)`.
pub fn unit_vector(dx: i64, dy: i64) -> (r: Vector)
    requires
        -SPAN <= dx <= SPAN,
        -SPAN <= dy <= SPAN,
    ensures
        r == spec_unit_vector(dx as int, dy as int),
        r.spec_len2() <= UNIT * UNIT,
        dx != 0 || dy != 0 ==> r.spec_len2() >= (UNIT - 2) * (UNIT - 2),
        -UNIT <= r.x <= UNIT,
        -UNIT <= r.y <= UNIT,
        (dx >= 0 ==> r.x >= 0) && (dx <= 0 ==> r.x <= 0),
        (dy >= 0 ==> r.y >= 0) && (dy <= 0 ==> r.y <= 0),
{
    let ax: u64 = if dx < 0 { (-dx) as u64 } else { dx as u64 };
    let ay: u64 = if dy < 0 { (-dy) as u64 } else { dy as u64 };
    assert(ax * ax == dx * dx && 0 <= ax * ax <= 9_000_000_000_000_000_000) by (nonlinear_arith)
        requires
            ax == dx || ax == -dx,
            0 <= ax <= 3_000_000_000,
    ;
    assert(ay * ay == dy * dy && 0 <= ay * ay <= 9_000_000_000_000_000_000) by (nonlinear_arith)
        requires
            ay == dy || ay == -dy,
            0 <= ay <= 3_000_000_000,
    ;
    proof {
        lemma_unit_vector_length(dx as int, dy as int);
    }
    let n: u64 = ax * ax + ay * ay;
    if n == 0 {
        return Vector { x: 0, y: 0 };
    }
    let qx: u64 = unit_part(ax, n);
    let qy: u64 = unit_part(ay, n);
    let x: i32 = if dx < 0 { -(qx as i32) } else { qx as i32 };
    let y: i32 = if dy < 0 { -(qy as i32) } else { qy as i32 };
    Vector { x, y }
}

/// Tells whether two discs overlap.
pub fn circles_overlap(a: &Circle, b: &Circle) -> (r: bool)
    ensures
        r == spec_circles_overlap(*a, *b),
{
    let dx: i64 = a.pos.x as i64 - b.pos.x as i64;
    let dy: i64 = a.pos.y as i64 - b.pos.y as i64;
    let reach: i64 = a.radius as i64 + b.radius as i64;
    reach > 0 && square(dx) + square(dy) < square(reach)
}

/// Tells whether a disc overlaps a rectangle.
pub fn circle_overlaps_rectangle(c: &Circle, r: &Rectangle) -> (b: bool)
    ensures
        b == spec_circle_overlaps_rectangle(*c, *r),
{
    let cx: i64 = c.pos.x as i64;
    let cy: i64 = c.pos.y as i64;
    let dx: i64 = clamp(cx, r.pos.x as i64, r.pos.x as i64 + r.size.x as i64) - cx;
    let dy: i64 = clamp(cy, r.pos.y as i64, r.pos.y as i64 + r.size.y as i64) - cy;
    c.radius > 0 && square(dx) + square(dy) < square(c.radius as i64)
}

impl Vector {
    /// The vector with the given components.
    pub fn new(x: i32, y: i32) -> (v: Vector)
        ensures
            v.x == x,
            v.y == y,
    {
        Vector { x, y }
    }

    /// Both components are small enough to be added to another such vector.
    pub open spec fn in_reach(self) -> bool {
        &&& -REACH <= self.x <= REACH
        &&& -REACH <= self.y <= REACH
    }

    /// The square of the length.
    pub open spec fn spec_len2(self) -> int {
        self.x * self.x + self.y * self.y
    }

    /// The sum of two vectors.
    pub open spec fn spec_plus(self, other: Vector) -> Vector {
        vec2(self.x + other.x, self.y + other.y)
    }

    /// The product with a fixed-point factor, rounded toward zero.
    pub open spec fn spec_times(self, factor: int) -> Vector {
        vec2(
            div_toward_zero(self.x * factor, UNIT as int),
            div_toward_zero(self.y * factor, UNIT as int),
        )
    }

    /// The vector of length one in the same direction.
    pub open spec fn spec_normalize(self) -> Vector {
        spec_unit_vector(self.x as int, self.y as int)
    }

    /// Computes the square of the length.
    pub fn len2(self) -> (r: u64)
        ensures
            r == self.spec_len2(),
    {
        let x: i64 = self.x as i64;
        let y: i64 = self.y as i64;
        assert(0 <= x * x <= 0x4000_0000_0000_0000) by (nonlinear_arith)
            requires
                -0x8000_0000 <= x <= 0x8000_0000,
        ;
        assert(0 <= y * y <= 0x4000_0000_0000_0000) by (nonlinear_arith)
            requires
                -0x8000_0000 <= y <= 0x8000_0000,
        ;
        (x * x) as u64 + (y * y) as u64
    }

    /// Adds two vectors whose sum fits.
    pub fn plus(self, other: Vector) -> (r: Vector)
        requires
            i32::MIN <= self.x + other.x <= i32::MAX,
            i32::MIN <= self.y + other.y <= i32::MAX,
        ensures
            r == self.spec_plus(other),
            r.x == self.x + other.x,
            r.y == self.y + other.y,
    {
        Vector { x: self.x + other.x, y: self.y + other.y }
    }

    /// Multiplies by a fixed-point factor, where the product fits.
    pub fn times(self, factor: i32) -> (r: Vector)
        requires
            i32::MIN <= div_toward_zero(self.x * factor, UNIT as int) <= i32::MAX,
            i32::MIN <= div_toward_zero(self.y * factor, UNIT as int) <= i32::MAX,
        ensures
            r == self.spec_times(factor as int),
            r.x == div_toward_zero(self.x * factor, UNIT as int),
            r.y == div_toward_zero(self.y * factor, UNIT as int),
    {
        Vector { x: scaled(self.x, factor), y: scaled(self.y, factor) }
    }

    /// Computes the vector of length one in the same direction.
    pub fn normalize(self) -> (r: Vector)
        ensures
            r == self.spec_normalize(),
            r.spec_len2() <= UNIT * UNIT,
            self.x != 0 || self.y != 0 ==> r.spec_len2() >= (UNIT - 2) * (UNIT - 2),
            -UNIT <= r.x <= UNIT,
            -UNIT <= r.y <= UNIT,
            (self.x >= 0 ==> r.x >= 0) && (self.x <= 0 ==> r.x <= 0),
            (self.y >= 0 ==> r.y >= 0) && (self.y <= 0 ==> r.y <= 0),
    {
        unit_vector(self.x as i64, self.y as i64)
    }
}

/// One component of a fixed-point product.
fn scaled(a: i32, factor: i32) -> (r: i32)
    requires
        i32::MIN <= div_toward_zero(a * factor, UNIT as int) <= i32::MAX,
    ensures
        r == div_toward_zero(a * factor, UNIT as int),
{
    assert(-0x4000_0000_0000_0000 <= a * factor <= 0x4000_0000_0000_0000) by (nonlinear_arith)
        requires
            -0x8000_0000 <= a <= 0x8000_0000,
            -0x8000_0000 <= factor <= 0x8000_0000,
    ;
    let product: i64 = (a as i64) * (factor as i64);
    let quotient: i64 = if product >= 0 { product / 1000 } else { -((-product) / 1000) };
    quotient as i32
}

impl Rectangle {
    /// The point lies in the rectangle; the left and upper edges belong to
    /// it, the right and lower edges do not.
    pub open spec fn spec_contains(self, p: Vector) -> bool {
        &&& p.x >= self.pos.x
        &&& p.y >= self.pos.y
        &&& p.x < self.pos.x + self.size.x
        &&& p.y < self.pos.y + self.size.y
    }

    /// Tells whether the point lies in the rectangle.
    pub fn contains(&self, p: Vector) -> (b: bool)
        ensures
            b == self.spec_contains(p),
    {
        p.x >= self.pos.x && p.y >= self.pos.y
            && (p.x as i64) < self.pos.x as i64 + self.size.x as i64
            && (p.y as i64) < self.pos.y as i64 + self.size.y as i64
    }
}

} // verus!

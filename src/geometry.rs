//! Exact plane geometry on integer world coordinates.

use vstd::prelude::*;

verus! {

/// How many coordinate units make one world unit: points are held in
/// thousandths of a world unit, exactly.
pub const UNITS_PER_WORLD_UNIT: i32 = 1000;

/// A point of the map, in thousandths of a world unit.
#[derive(Clone, Copy, PartialEq, Eq, Structural, Debug)]
pub struct Point {
    pub x: i32,
    pub y: i32,
}

/// Twice the signed area of the triangle `(a, b, c)`: positive when the
/// corners run counter-clockwise, zero when they are collinear.
pub open spec fn orient(a: Point, b: Point, c: Point) -> int {
    (b.x - a.x) * (c.y - a.y) - (b.y - a.y) * (c.x - a.x)
}

/// Twice the signed area of a triangle given by its corners.
pub fn signed_area2(t: &[Point; 3]) -> (r: i128)
    ensures
        r == orient(t[0], t[1], t[2]),
{
    let a = t[0];
    let b = t[1];
    let c = t[2];
    let abx = b.x as i128 - a.x as i128;
    let aby = b.y as i128 - a.y as i128;
    let acx = c.x as i128 - a.x as i128;
    let acy = c.y as i128 - a.y as i128;
    proof {
        lemma_product_bound(abx as int, acy as int);
        lemma_product_bound(aby as int, acx as int);
    }
    abx * acy - aby * acx
}

/// A product of two coordinate differences fits well inside `i128`.
proof fn lemma_product_bound(a: int, b: int)
    requires
        -0x1_0000_0000 <= a <= 0x1_0000_0000,
        -0x1_0000_0000 <= b <= 0x1_0000_0000,
    ensures
        -0x1_0000_0000_0000_0000 <= a * b <= 0x1_0000_0000_0000_0000,
{
    assert(-0x1_0000_0000_0000_0000 <= a * b <= 0x1_0000_0000_0000_0000) by (nonlinear_arith)
        requires
            -0x1_0000_0000 <= a <= 0x1_0000_0000,
            -0x1_0000_0000 <= b <= 0x1_0000_0000,
    ;
}

/// The cross product of the vectors `(ax, ay)` and `(bx, by)`.
pub open spec fn cross(ax: int, ay: int, bx: int, by: int) -> int {
    ax * by - ay * bx
}

/// The barycentric test on exact values. Writing `v0 = t[2] - t[0]`,
/// `v1 = t[1] - t[0]` and `v2 = p - t[0]`, the point is `t[0] + u v0 + v v1`
/// with `u = a / c` and `v = b / c` (Cramer's rule), where `c = v0 x v1`,
/// `a = v2 x v1` and `b = v0 x v2`. The point is inside when `u >= 0`,
/// `v >= 0` and `u + v < 1`: two edges of the triangle count as inside, the
/// edge from `t[1]` to `t[2]` does not. A triangle of zero area (`c == 0`)
/// contains no point.
pub open spec fn in_triangle(t: [Point; 3], p: Point) -> bool {
    let c = cross(t[2].x - t[0].x, t[2].y - t[0].y, t[1].x - t[0].x, t[1].y - t[0].y);
    let a = cross(p.x - t[0].x, p.y - t[0].y, t[1].x - t[0].x, t[1].y - t[0].y);
    let b = cross(t[2].x - t[0].x, t[2].y - t[0].y, p.x - t[0].x, p.y - t[0].y);
    (c > 0 && a >= 0 && b >= 0 && a + b < c) || (c < 0 && a <= 0 && b <= 0 && a + b > c)
}

/// Cross product of two coordinate differences, computed without overflow.
fn cross_exec(ax: i128, ay: i128, bx: i128, by: i128) -> (r: i128)
    requires
        -0x1_0000_0000 <= ax <= 0x1_0000_0000,
        -0x1_0000_0000 <= ay <= 0x1_0000_0000,
        -0x1_0000_0000 <= bx <= 0x1_0000_0000,
        -0x1_0000_0000 <= by <= 0x1_0000_0000,
    ensures
        r == cross(ax as int, ay as int, bx as int, by as int),
        -0x2_0000_0000_0000_0000 <= r <= 0x2_0000_0000_0000_0000,
{
    proof {
        lemma_product_bound(ax as int, by as int);
        lemma_product_bound(ay as int, bx as int);
    }
    ax * by - ay * bx
}

/// Point containment for a triangle given by its three corners.
pub trait IsPointInTriangle {
    spec fn spec_contains(&self, point: Point) -> bool;

    fn is_point_in_triangle(&self, point: Point) -> (r: bool)
        ensures
            r == self.spec_contains(point),
    ;
}

impl IsPointInTriangle for [Point; 3] {
    open spec fn spec_contains(&self, point: Point) -> bool {
        in_triangle(*self, point)
    }

    fn is_point_in_triangle(&self, point: Point) -> (r: bool) {
        let ox = self[0].x as i128;
        let oy = self[0].y as i128;
        let v0x = self[2].x as i128 - ox;
        let v0y = self[2].y as i128 - oy;
        let v1x = self[1].x as i128 - ox;
        let v1y = self[1].y as i128 - oy;
        let v2x = point.x as i128 - ox;
        let v2y = point.y as i128 - oy;
        let c = cross_exec(v0x, v0y, v1x, v1y);
        let a = cross_exec(v2x, v2y, v1x, v1y);
        let b = cross_exec(v0x, v0y, v2x, v2y);
        if c > 0 {
            a >= 0 && b >= 0 && a + b < c
        } else if c < 0 {
            a <= 0 && b <= 0 && a + b > c
        } else {
            false
        }
    }
}

} // verus!

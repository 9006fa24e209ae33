//! The base mesh: a large quad of two triangles that is refined in place by
//! subdividing triangles.

use vstd::prelude::*;

use crate::geometry::{cross, in_triangle, orient, IsPointInTriangle, Point};
use crate::mesh::{
    calc_center_points, centroids_of, corner, mesh_of, mesh_valid, triangle_centroid,
    triangle_count, Centroid, MeshView,
};

verus! {

/// Half the side of the default base quad: 200 world units.
pub const BASE_HALF_SIZE: i32 = 200_000;

/// An editable triangle mesh with a centroid kept for every triangle.
pub struct BaseMapMeshInfo {
    vertices: Vec<Point>,
    indices: Vec<u32>,
    center_points: Vec<Centroid>,
}

impl View for BaseMapMeshInfo {
    type V = MeshView;

    closed spec fn view(&self) -> MeshView {
        mesh_of(self.vertices@, self.indices@)
    }
}

/// The default base quad, corners counter-clockwise from the lower left, cut
/// along its diagonal from the lower left to the upper right.
pub open spec fn default_base_view() -> MeshView {
    mesh_of(
        seq![
            Point { x: -200_000i32, y: -200_000i32 },
            Point { x: 200_000i32, y: -200_000i32 },
            Point { x: 200_000i32, y: 200_000i32 },
            Point { x: -200_000i32, y: 200_000i32 },
        ],
        seq![0u32, 1, 2, 2, 3, 0],
    )
}

/// Nine times the squared distance from a centroid to a point.
pub open spec fn dist9(c: Centroid, p: Point) -> int {
    (c.x3 - 3 * p.x) * (c.x3 - 3 * p.x) + (c.y3 - 3 * p.y) * (c.y3 - 3 * p.y)
}

/// `i` is the first of the centroids nearest to `p`.
pub open spec fn is_first_closest(cs: Seq<Centroid>, p: Point, i: int) -> bool {
    &&& 0 <= i < cs.len()
    &&& forall|j: int| 0 <= j < cs.len() ==> dist9(cs[i], p) <= #[trigger] dist9(cs[j], p)
    &&& forall|j: int| 0 <= j < i ==> dist9(cs[i], p) < #[trigger] dist9(cs[j], p)
}

/// Removing triangle `t`: its run of three indices leaves the index list.
pub open spec fn without_triangle(m: MeshView, t: int) -> MeshView {
    mesh_of(m.vertices, m.indices.subrange(0, 3 * t) + m.indices.subrange(3 * t + 3, m.indices.len() as int))
}

/// Splitting triangle `t = (a, b, c)` at a new vertex `n` placed at `p`: the
/// vertex is appended once, triangle `t` leaves the index list, and the
/// triangles `(n, b, c)`, `(a, n, c)` and `(a, b, n)` are appended.
pub open spec fn subdivided(m: MeshView, t: int, p: Point) -> MeshView {
    let a = m.indices[3 * t];
    let b = m.indices[3 * t + 1];
    let c = m.indices[3 * t + 2];
    let n = m.vertices.len() as u32;
    mesh_of(
        m.vertices.push(p),
        without_triangle(m, t).indices + seq![n, b, c, a, n, c, a, b, n],
    )
}

impl BaseMapMeshInfo {
    /// The indices name existing vertices in runs of three, every index and
    /// triangle position fits `u32`, and the stored centroids are those of
    /// the triangles.
    pub closed spec fn wf(&self) -> bool {
        &&& mesh_valid(self@)
        &&& self.vertices@.len() <= u32::MAX
        &&& self.indices@.len() <= u32::MAX
        &&& self.center_points@ == centroids_of(self@)
    }

    /// What the invariant says of the contents.
    pub proof fn lemma_wf(&self)
        requires
            self.wf(),
        ensures
            mesh_valid(self@),
            self@.vertices.len() <= u32::MAX,
            self@.indices.len() <= u32::MAX,
    {
    }

    pub fn vertices(&self) -> (r: &Vec<Point>)
        ensures
            r@ == self@.vertices,
    {
        &self.vertices
    }

    pub fn indices(&self) -> (r: &Vec<u32>)
        ensures
            r@ == self@.indices,
    {
        &self.indices
    }

    pub fn center_points(&self) -> (r: &Vec<Centroid>)
        requires
            self.wf(),
        ensures
            r@ == centroids_of(self@),
    {
        &self.center_points
    }

    /// The triangle nearest to `point`, measured from its centroid; the first
    /// of equally near ones. `None` when the mesh has no triangle.
    pub fn cloest_triangle_to_point(&self, point: Point) -> (r: Option<u32>)
        requires
            self.wf(),
        ensures
            r is None <==> triangle_count(self@) == 0,
            r matches Some(i) ==> is_first_closest(centroids_of(self@), point, i as int),
    {
        let n = self.center_points.len();
        if n == 0 {
            return None;
        }
        let ghost cs = self.center_points@;
        let mut best: usize = 0;
        let mut best_d = distance9(self.center_points[0], point);
        let mut i: usize = 1;
        while i < n
            invariant
                self.wf(),
                cs == self.center_points@,
                n == cs.len(),
                1 <= i <= n,
                best < i,
                best_d == dist9(cs[best as int], point),
                forall|j: int| 0 <= j < i ==> best_d <= #[trigger] dist9(cs[j], point),
                forall|j: int| 0 <= j < best ==> best_d < #[trigger] dist9(cs[j], point),
            decreases n - i,
        {
            let d = distance9(self.center_points[i], point);
            if d < best_d {
                best = i;
                best_d = d;
            }
            i = i + 1;
        }
        Some(best as u32)
    }
}

impl BaseMapMeshInfo {
    /// Corners of triangle `index`, in the order of the index list.
    pub fn triangle(&self, index: u32) -> (r: [Point; 3])
        requires
            self.wf(),
            index < triangle_count(self@),
        ensures
            r[0] == corner(self@, index as int, 0),
            r[1] == corner(self@, index as int, 1),
            r[2] == corner(self@, index as int, 2),
    {
        let base = 3 * index as usize;
        [
            self.vertices[self.indices[base] as usize],
            self.vertices[self.indices[base + 1] as usize],
            self.vertices[self.indices[base + 2] as usize],
        ]
    }

    /// The stored centroid of triangle `index`.
    pub fn center_point(&self, index: u32) -> (r: Centroid)
        requires
            self.wf(),
            index < triangle_count(self@),
        ensures
            r == triangle_centroid(self@, index as int),
    {
        self.center_points[index as usize]
    }

    /// Removes triangle `index` and its centroid; the vertex list stays.
    pub fn remove_triangle(&mut self, index: u32)
        requires
            old(self).wf(),
            index < triangle_count(old(self)@),
        ensures
            final(self).wf(),
            final(self)@ == without_triangle(old(self)@, index as int),
    {
        let ghost m = self@;
        let ghost cs = self.center_points@;
        let base = 3 * index as usize;
        self.indices.remove(base);
        self.indices.remove(base);
        self.indices.remove(base);
        self.center_points.remove(index as usize);
        proof {
            let r = without_triangle(m, index as int);
            assert(self.indices@ =~= r.indices);
            lemma_without_triangle(m, index as int);
            assert(self.center_points@ =~= centroids_of(r));
        }
    }

    /// Splits triangle `old_triangle_index` at `new_point`: the point becomes
    /// one new vertex, the triangle gives way to the three triangles that
    /// each replace one of its corners by that vertex, and every centroid is
    /// computed again.
    #[verifier::rlimit(30)]
    pub fn subdivide_triangle(&mut self, old_triangle_index: u32, new_point: Point)
        requires
            old(self).wf(),
            old_triangle_index < triangle_count(old(self)@),
            old(self)@.vertices.len() < u32::MAX,
            old(self)@.indices.len() + 6 <= u32::MAX,
        ensures
            final(self).wf(),
            final(self)@ == subdivided(old(self)@, old_triangle_index as int, new_point),
            triangle_count(final(self)@) == triangle_count(old(self)@) + 2,
            final(self)@.vertices.len() == old(self)@.vertices.len() + 1,
            final(self)@.vertices[old(self)@.vertices.len() as int] == new_point,
    {
        let ghost m = self@;
        let base = 3 * old_triangle_index as usize;
        let a = self.indices[base];
        let b = self.indices[base + 1];
        let c = self.indices[base + 2];
        let n = self.vertices.len() as u32;
        self.vertices.push(new_point);
        self.indices.push(n);
        self.indices.push(b);
        self.indices.push(c);
        self.indices.push(a);
        self.indices.push(n);
        self.indices.push(c);
        self.indices.push(a);
        self.indices.push(b);
        self.indices.push(n);
        self.indices.remove(base);
        self.indices.remove(base);
        self.indices.remove(base);
        let ghost s = subdivided(m, old_triangle_index as int, new_point);
        assert(self.indices@ =~= s.indices);
        assert(self.vertices@ =~= s.vertices);
        proof {
            lemma_subdivision(m, old_triangle_index as int, new_point);
        }
        self.center_points = calc_center_points(&self.vertices, &self.indices);
    }
}

/// The corners of triangle `t`.
pub open spec fn triangle_corners(m: MeshView, t: int) -> [Point; 3] {
    [corner(m, t, 0), corner(m, t, 1), corner(m, t, 2)]
}

/// `t` is the first triangle, in index order, that contains `p`.
pub open spec fn is_first_enclosing(m: MeshView, p: Point, t: int) -> bool {
    &&& 0 <= t < triangle_count(m)
    &&& in_triangle(triangle_corners(m, t), p)
    &&& forall|j: int| 0 <= j < t ==> !in_triangle(#[trigger] triangle_corners(m, j), p)
}

impl BaseMapMeshInfo {
    /// The first triangle, in index order, that contains `point`.
    pub fn enclosing_triangle(&self, point: Point) -> (r: Option<u32>)
        requires
            self.wf(),
        ensures
            r matches Some(t) ==> is_first_enclosing(self@, point, t as int),
            r is None ==> forall|j: int|
                0 <= j < triangle_count(self@) ==> !in_triangle(
                    #[trigger] triangle_corners(self@, j),
                    point,
                ),
    {
        let n = (self.indices.len() / 3) as u32;
        let mut t: u32 = 0;
        while t < n
            invariant
                self.wf(),
                n == triangle_count(self@),
                t <= n,
                forall|j: int| 0 <= j < t ==> !in_triangle(#[trigger] triangle_corners(self@, j), point),
            decreases n - t,
        {
            let corners = self.triangle(t);
            assert(corners == triangle_corners(self@, t as int)) by {
                assert(corners@ =~= triangle_corners(self@, t as int)@);
            }
            if corners.is_point_in_triangle(point) {
                return Some(t);
            }
            t = t + 1;
        }
        None
    }

    /// A click of the base-mesh editor: the first triangle that contains
    /// `point` is subdivided there, and its index is returned. A point that
    /// no triangle contains leaves the mesh as it is.
    pub fn subdivide_at(&mut self, point: Point) -> (r: Option<u32>)
        requires
            old(self).wf(),
            old(self)@.vertices.len() < u32::MAX,
            old(self)@.indices.len() + 6 <= u32::MAX,
        ensures
            final(self).wf(),
            r matches Some(t) ==> is_first_enclosing(old(self)@, point, t as int) && final(self)@
                == subdivided(old(self)@, t as int, point),
            r is None ==> final(self)@ == old(self)@ && forall|j: int|
                0 <= j < triangle_count(old(self)@) ==> !in_triangle(
                    #[trigger] triangle_corners(old(self)@, j),
                    point,
                ),
    {
        match self.enclosing_triangle(point) {
            Some(t) => {
                self.subdivide_triangle(t, point);
                Some(t)
            },
            None => None,
        }
    }
}

impl Default for BaseMapMeshInfo {
    /// The base quad of side 400 world units centred on the origin, as two
    /// triangles.
    fn default() -> (r: Self)
        ensures
            r.wf(),
            r@ == default_base_view(),
    {
        let h = BASE_HALF_SIZE;
        let l = -h;
        let vertices = vec![
            Point { x: l, y: l },
            Point { x: h, y: l },
            Point { x: h, y: h },
            Point { x: l, y: h },
        ];
        let indices: Vec<u32> = vec![0, 1, 2, 2, 3, 0];
        assert(vertices@ =~= default_base_view().vertices);
        assert(indices@ =~= default_base_view().indices);
        let center_points = calc_center_points(&vertices, &indices);
        BaseMapMeshInfo { vertices, indices, center_points }
    }
}

/// The centroids after removing triangle `t` are the old ones without entry `t`.
proof fn lemma_without_triangle(m: MeshView, t: int)
    requires
        mesh_valid(m),
        0 <= t < triangle_count(m),
    ensures
        mesh_valid(without_triangle(m, t)),
        centroids_of(without_triangle(m, t)) =~= centroids_of(m).remove(t),
{
    let r = without_triangle(m, t);
    assert forall|i: int| 0 <= i < r.indices.len() implies #[trigger] r.indices[i]
        < r.vertices.len() by {
        if i >= 3 * t {
            assert(r.indices[i] == m.indices[i + 3]);
        }
    }
    assert forall|j: int| 0 <= j < triangle_count(r) implies #[trigger] triangle_centroid(r, j)
        == centroids_of(m).remove(t)[j] by {
        if j < t {
            assert(r.indices[3 * j] == m.indices[3 * j]);
            assert(r.indices[3 * j + 1] == m.indices[3 * j + 1]);
            assert(r.indices[3 * j + 2] == m.indices[3 * j + 2]);
        } else {
            assert(r.indices[3 * j] == m.indices[3 * (j + 1)]);
            assert(r.indices[3 * j + 1] == m.indices[3 * (j + 1) + 1]);
            assert(r.indices[3 * j + 2] == m.indices[3 * (j + 1) + 2]);
        }
    }
}

/// Twice the signed area of triangle `t`.
pub open spec fn triangle_area2(m: MeshView, t: int) -> int {
    orient(corner(m, t, 0), corner(m, t, 1), corner(m, t, 2))
}

pub open spec fn abs_int(x: int) -> int {
    if x < 0 {
        -x
    } else {
        x
    }
}

/// The closest triangle is fully determined by the mesh and the point: no two
/// different indices are both the first nearest one, so repeated queries on
/// an unchanged mesh give the same answer.
pub proof fn lemma_closest_is_unique(cs: Seq<Centroid>, p: Point, i: int, j: int)
    requires
        is_first_closest(cs, p, i),
        is_first_closest(cs, p, j),
    ensures
        i == j,
{
    if i < j {
        assert(dist9(cs[j], p) < dist9(cs[i], p));
    } else if j < i {
        assert(dist9(cs[i], p) < dist9(cs[j], p));
    }
}

/// The signed area of a triangle splits over any point into the three
/// triangles that each replace one corner by that point.
proof fn lemma_orient_split(a: Point, b: Point, c: Point, p: Point)
    ensures
        orient(p, b, c) + orient(a, p, c) + orient(a, b, p) == orient(a, b, c),
{
    lemma_orient_as_wedges(a, b, c);
    lemma_orient_as_wedges(p, b, c);
    lemma_orient_as_wedges(a, p, c);
    lemma_orient_as_wedges(a, b, p);
    lemma_wedge_antisymmetric(p, a);
    lemma_wedge_antisymmetric(p, b);
    lemma_wedge_antisymmetric(p, c);
}

/// The cross product of two points taken as vectors from the origin.
spec fn wedge(u: Point, v: Point) -> int {
    u.x * v.y - u.y * v.x
}

proof fn lemma_orient_as_wedges(a: Point, b: Point, c: Point)
    ensures
        orient(a, b, c) == wedge(a, b) + wedge(b, c) + wedge(c, a),
{
    let (ax, ay, bx, by, cx, cy) = (a.x as int, a.y as int, b.x as int, b.y as int, c.x as int, c.y as int);
    assert((bx - ax) * (cy - ay) == bx * cy - bx * ay - ax * cy + ax * ay) by (nonlinear_arith);
    assert((by - ay) * (cx - ax) == by * cx - by * ax - ay * cx + ay * ax) by (nonlinear_arith);
    assert(ax * ay == ay * ax) by (nonlinear_arith);
    assert(bx * ay == ay * bx && by * ax == ax * by) by (nonlinear_arith);
    assert(ay * cx == cx * ay && ax * cy == cy * ax) by (nonlinear_arith);
}

proof fn lemma_wedge_antisymmetric(u: Point, v: Point)
    ensures
        wedge(u, v) == -wedge(v, u),
{
    assert(u.x * v.y == v.y * u.x && u.y * v.x == v.x * u.y) by (nonlinear_arith);
}

/// A point in a triangle sees each edge with the triangle's own orientation
/// or on it.
proof fn lemma_inside_orientations(t: [Point; 3], p: Point)
    requires
        in_triangle(t, p),
    ensures
        ({
            let (a, b, c) = (t[0], t[1], t[2]);
            ||| orient(a, b, c) < 0 && orient(p, b, c) < 0 && orient(a, p, c) <= 0 && orient(
                a,
                b,
                p,
            ) <= 0
            ||| orient(a, b, c) > 0 && orient(p, b, c) > 0 && orient(a, p, c) >= 0 && orient(
                a,
                b,
                p,
            ) >= 0
        }),
{
    let (a, b, c) = (t[0], t[1], t[2]);
    assert(orient(a, b, c) == -cross(c.x - a.x, c.y - a.y, b.x - a.x, b.y - a.y))
        by (nonlinear_arith);
    assert(orient(a, b, p) == -cross(p.x - a.x, p.y - a.y, b.x - a.x, b.y - a.y))
        by (nonlinear_arith);
    assert(orient(a, p, c) == -cross(c.x - a.x, c.y - a.y, p.x - a.x, p.y - a.y))
        by (nonlinear_arith);
    lemma_orient_split(a, b, c, p);
}

/// `p` lies in the closed triangle `(a, b, c)`: the three triangles that
/// each replace one corner by `p` all have the same orientation, or none.
pub open spec fn in_closed_triangle(a: Point, b: Point, c: Point, p: Point) -> bool {
    ||| orient(p, b, c) >= 0 && orient(a, p, c) >= 0 && orient(a, b, p) >= 0
    ||| orient(p, b, c) <= 0 && orient(a, p, c) <= 0 && orient(a, b, p) <= 0
}

/// Splitting a triangle adds exactly two triangles and one vertex, and the
/// three new triangles cover the old one: their signed areas add up to its
/// signed area, and when the new point lies in the closed old triangle
/// (inside or on its boundary) their areas add up to its area. A point that
/// the containment test admits lies in the closed triangle.
pub proof fn lemma_subdivision(m: MeshView, t: int, p: Point)
    requires
        mesh_valid(m),
        0 <= t < triangle_count(m),
        m.vertices.len() < u32::MAX,
    ensures
        ({
            let s = subdivided(m, t, p);
            let k = triangle_count(m) - 1;
            &&& mesh_valid(s)
            &&& triangle_count(s) == triangle_count(m) + 2
            &&& s.vertices.len() == m.vertices.len() + 1
            &&& triangle_area2(s, k) + triangle_area2(s, k + 1) + triangle_area2(s, k + 2)
                == triangle_area2(m, t)
            &&& in_closed_triangle(corner(m, t, 0), corner(m, t, 1), corner(m, t, 2), p)
                ==> abs_int(triangle_area2(s, k)) + abs_int(triangle_area2(s, k + 1)) + abs_int(
                triangle_area2(s, k + 2),
            ) == abs_int(triangle_area2(m, t))
            &&& in_triangle([corner(m, t, 0), corner(m, t, 1), corner(m, t, 2)], p)
                ==> in_closed_triangle(corner(m, t, 0), corner(m, t, 1), corner(m, t, 2), p)
        }),
{
    let s = subdivided(m, t, p);
    let k = triangle_count(m) - 1;
    let len = m.indices.len() as int;
    let n = m.vertices.len() as int;
    let a = corner(m, t, 0);
    let b = corner(m, t, 1);
    let c = corner(m, t, 2);
    assert(s.indices.len() == len + 6);
    assert forall|i: int| 0 <= i < s.indices.len() implies #[trigger] s.indices[i]
        < s.vertices.len() by {
        if i < 3 * t {
            assert(s.indices[i] == m.indices[i]);
        } else if i < len - 3 {
            assert(s.indices[i] == m.indices[i + 3]);
        }
    }
    assert(3 * k == len - 3);
    assert(s.vertices[n] == p);
    assert(s.vertices[m.indices[3 * t] as int] == a);
    assert(s.vertices[m.indices[3 * t + 1] as int] == b);
    assert(s.vertices[m.indices[3 * t + 2] as int] == c);
    assert(corner(s, k, 0) == p && corner(s, k, 1) == b && corner(s, k, 2) == c);
    assert(corner(s, k + 1, 0) == a && corner(s, k + 1, 1) == p && corner(s, k + 1, 2) == c);
    assert(corner(s, k + 2, 0) == a && corner(s, k + 2, 1) == b && corner(s, k + 2, 2) == p);
    lemma_orient_split(a, b, c, p);
    let tri = [a, b, c];
    assert(tri[0] == a && tri[1] == b && tri[2] == c);
    if in_triangle(tri, p) {
        lemma_inside_orientations(tri, p);
    }
}

/// Nine times the squared distance, for a centroid of three `i32` points.
fn distance9(c: Centroid, p: Point) -> (r: i128)
    requires
        -0x1_8000_0000 <= c.x3 <= 0x1_8000_0000,
        -0x1_8000_0000 <= c.y3 <= 0x1_8000_0000,
    ensures
        r == dist9(c, p),
{
    let dx = c.x3 as i128 - 3 * (p.x as i128);
    let dy = c.y3 as i128 - 3 * (p.y as i128);
    assert(0 <= dx * dx <= 0x100_0000_0000_0000_0000 && 0 <= dy * dy <= 0x100_0000_0000_0000_0000) by (nonlinear_arith)
        requires
            -0x4_0000_0000 <= dx <= 0x4_0000_0000,
            -0x4_0000_0000 <= dy <= 0x4_0000_0000,
    ;
    dx * dx + dy * dy
}

} // verus!

//! Triangle index lists over a vertex list, and their per-triangle centroids.

use vstd::prelude::*;

use crate::geometry::Point;

verus! {

/// The centroid of a triangle, held as three times its coordinates so that
/// the mean of three integer points stays exact.
#[derive(Clone, Copy, PartialEq, Eq, Structural, Debug)]
pub struct Centroid {
    pub x3: i64,
    pub y3: i64,
}

/// A vertex list and a triangle index list, as mathematical sequences.
pub struct MeshView {
    pub vertices: Seq<Point>,
    pub indices: Seq<u32>,
}

pub open spec fn mesh_of(vertices: Seq<Point>, indices: Seq<u32>) -> MeshView {
    MeshView { vertices, indices }
}

/// Index runs of three, each naming vertices that exist.
pub open spec fn indices_valid(indices: Seq<u32>, vertex_count: int) -> bool {
    &&& indices.len() % 3 == 0
    &&& forall|i: int| 0 <= i < indices.len() ==> #[trigger] indices[i] < vertex_count
}

pub open spec fn mesh_valid(m: MeshView) -> bool {
    indices_valid(m.indices, m.vertices.len() as int)
}

pub open spec fn triangle_count(m: MeshView) -> int {
    (m.indices.len() / 3) as int
}

/// Corner `k` (0, 1 or 2) of triangle `t`.
pub open spec fn corner(m: MeshView, t: int, k: int) -> Point {
    m.vertices[m.indices[3 * t + k] as int]
}

pub open spec fn centroid_of(a: Point, b: Point, c: Point) -> Centroid {
    Centroid { x3: (a.x + b.x + c.x) as i64, y3: (a.y + b.y + c.y) as i64 }
}

pub open spec fn triangle_centroid(m: MeshView, t: int) -> Centroid {
    centroid_of(corner(m, t, 0), corner(m, t, 1), corner(m, t, 2))
}

/// The centroid of every triangle, in the order of the index list.
pub open spec fn centroids_of(m: MeshView) -> Seq<Centroid> {
    Seq::new((m.indices.len() / 3) as nat, |t: int| triangle_centroid(m, t))
}

fn centroid(a: Point, b: Point, c: Point) -> (r: Centroid)
    ensures
        r == centroid_of(a, b, c),
{
    Centroid {
        x3: a.x as i64 + b.x as i64 + c.x as i64,
        y3: a.y as i64 + b.y as i64 + c.y as i64,
    }
}

/// The centroid of each triangle that `indices` names in `vertices`.
pub fn calc_center_points(vertices: &Vec<Point>, indices: &Vec<u32>) -> (r: Vec<Centroid>)
    requires
        indices_valid(indices@, vertices@.len() as int),
    ensures
        r@ == centroids_of(mesh_of(vertices@, indices@)),
{
    let ghost m = mesh_of(vertices@, indices@);
    let n = indices.len() / 3;
    let mut r: Vec<Centroid> = Vec::new();
    let mut t: usize = 0;
    while t < n
        invariant
            m == mesh_of(vertices@, indices@),
            indices_valid(indices@, vertices@.len() as int),
            n == indices.len() / 3,
            t <= n,
            r@.len() == t,
            forall|j: int| 0 <= j < t ==> r@[j] == #[trigger] triangle_centroid(m, j),
        decreases n - t,
    {
        let a = vertices[indices[3 * t] as usize];
        let b = vertices[indices[3 * t + 1] as usize];
        let c = vertices[indices[3 * t + 2] as usize];
        r.push(centroid(a, b, c));
        t = t + 1;
    }
    assert(r@ =~= centroids_of(m));
    r
}

/// The triangle list that `delaunator::triangulate` returns for the points:
/// positions into the list, in runs of three.
pub uninterp spec fn delaunay_of(points: Seq<Point>) -> Seq<usize>;

/// Positions into a list of `n` points, in runs of three.
pub open spec fn positions_valid(t: Seq<usize>, n: int) -> bool {
    &&& t.len() % 3 == 0
    &&& forall|i: int| 0 <= i < t.len() ==> #[trigger] t[i] < n
}

/// Relies on `delaunator::triangulate`: the Delaunay triangulation of the
/// points, each coordinate converted exactly to `f64`. Its `add_triangle`
/// only ever appends three positions of input points, and with fewer than
/// three points no seed triangle is found and no triangle is made.
#[verifier::external_body]
fn delaunay_triangles(points: &Vec<Point>) -> (r: Vec<usize>)
    ensures
        r@ == delaunay_of(points@),
        positions_valid(r@, points@.len() as int),
        points@.len() < 3 ==> r@.len() == 0,
{
    let points = points
        .iter()
        .map(|p| delaunator::Point { x: p.x.into(), y: p.y.into() })
        .collect::<Vec<delaunator::Point>>();
    delaunator::triangulate(&points).triangles
}

/// The Delaunay triangulation of the points as an index list.
pub open spec fn delaunay_indices(points: Seq<Point>) -> Seq<u32> {
    delaunay_of(points).map_values(|k: usize| k as u32)
}

/// The Delaunay triangulation of `points` as an index list: whole triangles
/// of the given points, none when there are fewer than three. Collinear or
/// coincident points may give no triangle at all.
pub fn triangulate(points: &Vec<Point>) -> (r: Vec<u32>)
    requires
        points@.len() <= u32::MAX,
    ensures
        r@ == delaunay_indices(points@),
        indices_valid(r@, points@.len() as int),
        points@.len() < 3 ==> r@.len() == 0,
{
    let triangles = delaunay_triangles(points);
    let mut v: Vec<u32> = Vec::new();
    let mut i: usize = 0;
    while i < triangles.len()
        invariant
            positions_valid(triangles@, points@.len() as int),
            points@.len() <= u32::MAX,
            i <= triangles@.len(),
            v@.len() == i,
            forall|j: int| 0 <= j < i ==> #[trigger] v@[j] == triangles@[j] as u32,
            forall|j: int| 0 <= j < i ==> #[trigger] v@[j] == triangles@[j],
        decreases triangles@.len() - i,
    {
        v.push(triangles[i] as u32);
        i = i + 1;
    }
    assert(v@ =~= delaunay_indices(points@));
    v
}

/// The index list as one triple per triangle.
pub fn triangle_triples(indices: &Vec<u32>) -> (r: Vec<[u32; 3]>)
    requires
        indices@.len() % 3 == 0,
    ensures
        r@.len() == indices@.len() / 3,
        forall|t: int, k: int|
            0 <= t < r@.len() && 0 <= k < 3 ==> #[trigger] r@[t][k] == indices@[3 * t + k],
{
    let n = indices.len() / 3;
    let mut r: Vec<[u32; 3]> = Vec::new();
    let mut t: usize = 0;
    while t < n
        invariant
            n == indices.len() / 3,
            indices@.len() % 3 == 0,
            t <= n,
            r@.len() == t,
            forall|s: int, k: int|
                0 <= s < t && 0 <= k < 3 ==> #[trigger] r@[s][k] == indices@[3 * s + k],
        decreases n - t,
    {
        let triple = [indices[3 * t], indices[3 * t + 1], indices[3 * t + 2]];
        r.push(triple);
        t = t + 1;
    }
    r
}

} // verus!

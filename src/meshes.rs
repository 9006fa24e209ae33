//! Named polygon objects, and what the renderer and the physics need of them.

use vstd::prelude::*;

use crate::geometry::Point;
use crate::mesh::{delaunay_indices, indices_valid, triangle_triples, triangulate};
use crate::record::{archived_bytes, record_points, triples_of, vertex_record, MAX_RECORD_VERTICES};

verus! {

/// The name an object carries until it is given one.
pub const UNNAMED: &'static str = "unnamed";

/// The extension of a record file.
pub const RECORD_EXTENSION: &'static str = ".bin";

/// How the renderer draws a vertex list.
#[derive(Clone, Copy, PartialEq, Eq, Structural, Debug)]
pub enum PrimitiveKind {
    PointList,
    LineList,
    TriangleList,
}

/// One vertex is drawn as a point, two as a line, any other count as
/// triangles.
pub open spec fn primitive_for(vertex_count: int) -> PrimitiveKind {
    if vertex_count == 1 {
        PrimitiveKind::PointList
    } else if vertex_count == 2 {
        PrimitiveKind::LineList
    } else {
        PrimitiveKind::TriangleList
    }
}

/// Why an object could not be built.
#[derive(Clone, Copy, PartialEq, Eq, Structural, Debug)]
pub enum MeshError {
    /// The vertex list is too long for `u32` indices.
    TooManyVertices,
}

/// A polygon of the map under a name, with what it is drawn and collides by.
pub struct MapObject {
    name: String,
    vertices: Vec<Point>,
    indices: Vec<u32>,
    primitive: PrimitiveKind,
    collider: Option<Vec<[u32; 3]>>,
}

/// The contents of a map object.
pub struct MapObjectView {
    pub name: Seq<char>,
    pub vertices: Seq<Point>,
    pub indices: Seq<u32>,
}

impl View for MapObject {
    type V = MapObjectView;

    closed spec fn view(&self) -> MapObjectView {
        MapObjectView { name: self.name@, vertices: self.vertices@, indices: self.indices@ }
    }
}

/// The collision triangles of an index list: one triple per triangle, or
/// none at all when there is no triangle.
pub open spec fn collider_of(indices: Seq<u32>) -> Option<Seq<Seq<u32>>> {
    if indices.len() == 0 {
        None
    } else {
        Some(Seq::new(indices.len() / 3, |t: int| indices.subrange(3 * t, 3 * t + 3)))
    }
}

impl MapObject {
    /// The indices name existing vertices in runs of three, and the drawing
    /// primitive and the collider are the ones they call for.
    pub closed spec fn wf(&self) -> bool {
        &&& indices_valid(self.indices@, self.vertices@.len() as int)
        &&& self.primitive == primitive_for(self.vertices@.len() as int)
        &&& match self.collider {
            Some(c) => self.indices@.len() > 0 && c@.map_values(|t: [u32; 3]| t@) == collider_of(
                self.indices@,
            )->Some_0,
            None => self.indices@.len() == 0,
        }
    }

    /// An unnamed object from a vertex list and its triangle index list;
    /// `None` when the indices are not whole triangles of these vertices.
    pub fn new(vertices: Vec<Point>, indices: Vec<u32>) -> (r: Option<Self>)
        ensures
            r is Some <==> indices_valid(indices@, vertices@.len() as int),
            r matches Some(o) ==> o.wf() && o@ == (MapObjectView {
                name: UNNAMED@,
                vertices: vertices@,
                indices: indices@,
            }),
    {
        if indices.len() % 3 != 0 {
            return None;
        }
        let mut i: usize = 0;
        while i < indices.len()
            invariant
                i <= indices@.len(),
                forall|j: int| 0 <= j < i ==> #[trigger] indices@[j] < vertices@.len(),
            decreases indices@.len() - i,
        {
            if indices[i] as usize >= vertices.len() {
                return None;
            }
            i = i + 1;
        }
        let primitive = if vertices.len() == 1 {
            PrimitiveKind::PointList
        } else if vertices.len() == 2 {
            PrimitiveKind::LineList
        } else {
            PrimitiveKind::TriangleList
        };
        let collider = if indices.len() == 0 {
            None
        } else {
            let triples = triangle_triples(&indices);
            assert(triples@.map_values(|t: [u32; 3]| t@) =~= collider_of(indices@)->Some_0) by {
                assert forall|t: int| 0 <= t < triples@.len() implies #[trigger] triples@[t]@
                    =~= indices@.subrange(3 * t, 3 * t + 3) by {
                    assert(triples@[t][0] == indices@[3 * t]);
                    assert(triples@[t][1] == indices@[3 * t + 1]);
                    assert(triples@[t][2] == indices@[3 * t + 2]);
                }
            }
            Some(triples)
        };
        Some(MapObject { name: String::from_str(UNNAMED), vertices, indices, primitive, collider })
    }

    /// The unnamed object of a vertex list: its indices are the Delaunay
    /// triangulation of the vertices, the drawing primitive follows from the
    /// vertex count, and there is a collider only when there is a triangle.
    pub fn map_object_from_vertices(vertices: Vec<Point>) -> (r: Self)
        requires
            vertices@.len() <= u32::MAX,
        ensures
            r.wf(),
            r@ == (MapObjectView {
                name: UNNAMED@,
                vertices: vertices@,
                indices: delaunay_indices(vertices@),
            }),
    {
        let indices = triangulate(&vertices);
        MapObject::new(vertices, indices).unwrap()
    }

    /// What the invariant says of the contents.
    pub proof fn lemma_wf(&self)
        requires
            self.wf(),
        ensures
            indices_valid(self@.indices, self@.vertices.len() as int),
    {
    }

    /// The same object under another name.
    pub fn name(self, name: &str) -> (r: Self)
        requires
            self.wf(),
        ensures
            r.wf(),
            r@ == (MapObjectView { name: name@, ..self@ }),
    {
        MapObject { name: String::from_str(name), ..self }
    }

    pub fn object_name(&self) -> (r: &String)
        ensures
            r@ == self@.name,
    {
        &self.name
    }

    pub fn get_vertices(&self) -> (r: Vec<Point>)
        ensures
            r@ == self@.vertices,
    {
        self.vertices.clone()
    }

    pub fn get_indices(&self) -> (r: Vec<u32>)
        ensures
            r@ == self@.indices,
    {
        self.indices.clone()
    }

    pub fn primitive(&self) -> (r: PrimitiveKind)
        requires
            self.wf(),
        ensures
            r == primitive_for(self@.vertices.len() as int),
    {
        self.primitive
    }

    /// The triangles that the trimesh collider is built from; `None` when the
    /// object has no triangle.
    pub fn collider_triangles(&self) -> (r: &Option<Vec<[u32; 3]>>)
        requires
            self.wf(),
        ensures
            r is None <==> self@.indices.len() == 0,
            r matches Some(c) ==> c@.map_values(|t: [u32; 3]| t@) == collider_of(
                self@.indices,
            )->Some_0,
    {
        &self.collider
    }

    /// An object keeps the default name until it is given one; saving it
    /// then earns a warning, as every such object goes to the same file.
    pub fn is_unnamed(&self) -> (r: bool)
        ensures
            r == (self@.name == UNNAMED@),
    {
        let unnamed = String::from_str(UNNAMED);
        self.name == unnamed
    }

    /// The name of the file the object is saved to: its name and the record
    /// extension.
    pub fn record_file_name(&self) -> (r: String)
        ensures
            r@ == self@.name + RECORD_EXTENSION@,
    {
        self.name.clone().concat(RECORD_EXTENSION)
    }

    /// The record the object is saved as: its vertex list alone. It is made
    /// unless the list is too long for a record, and reads back as the same
    /// vertex list.
    pub fn object_to_record(&self) -> (r: Option<Vec<u8>>)
        ensures
            r is Some <==> self@.vertices.len() <= MAX_RECORD_VERTICES,
            r matches Some(b) ==> b@ == archived_bytes(triples_of(self@.vertices)),
            r matches Some(b) ==> record_points(b@) == Some(self@.vertices),
    {
        vertex_record(&self.vertices)
    }
}

} // verus!

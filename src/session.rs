//! The editing session: the live objects of the map under stable keys, the
//! one selected object, and what each click does to them.

use vstd::prelude::*;

use crate::geometry::Point;
use crate::meshes::{MapObject, MapObjectView, MeshError, UNNAMED};
use crate::mesh::{delaunay_indices, indices_valid};

verus! {

/// The selection marker: the key of the one selected object.
#[derive(Clone, Copy, PartialEq, Eq, Structural, Debug)]
pub struct SelectedEntity(pub usize);

/// What the host has to do after a click: show the object under `spawned`,
/// and take away the one under `despawned`, if any.
#[derive(Clone, Copy, PartialEq, Eq, Structural, Debug)]
pub struct ClickOutcome {
    pub spawned: usize,
    pub despawned: Option<usize>,
}

/// The live objects by key (a despawned key stays empty) and the selection.
pub struct EditSession {
    objects: Vec<Option<MapObject>>,
    selected: Option<SelectedEntity>,
}

pub struct SessionView {
    pub objects: Seq<Option<MapObjectView>>,
    pub selected: Option<int>,
}

pub open spec fn slot_view(o: Option<MapObject>) -> Option<MapObjectView> {
    match o {
        Some(x) => Some(x@),
        None => None,
    }
}

impl View for EditSession {
    type V = SessionView;

    closed spec fn view(&self) -> SessionView {
        SessionView {
            objects: self.objects@.map_values(|o: Option<MapObject>| slot_view(o)),
            selected: match self.selected {
                Some(s) => Some(s.0 as int),
                None => None,
            },
        }
    }
}

/// The key names a live object.
pub open spec fn is_live(s: SessionView, key: int) -> bool {
    0 <= key < s.objects.len() && s.objects[key] is Some
}

/// The vertex list a primary click at `p` asks to be triangulated: the
/// selected object's vertices and `p`, or `p` alone when nothing is selected.
pub open spec fn vertices_after_click(s: SessionView, p: Point) -> Seq<Point> {
    match s.selected {
        Some(k) => s.objects[k]->Some_0.vertices.push(p),
        None => seq![p],
    }
}

/// The objects after a primary click: the selected one is despawned and the
/// rebuilt one takes a new key at the end.
pub open spec fn objects_after_click(s: SessionView, rebuilt: MapObjectView) -> Seq<
    Option<MapObjectView>,
> {
    let kept = match s.selected {
        Some(k) => s.objects.update(k, None),
        None => s.objects,
    };
    kept.push(Some(rebuilt))
}

impl EditSession {
    /// Every live object is well formed, and the selection names a live one.
    pub closed spec fn wf(&self) -> bool {
        &&& forall|k: int|
            0 <= k < self.objects@.len() ==> (#[trigger] self.objects@[k] matches Some(o)
                ==> o.wf())
        &&& self.selected matches Some(s) ==> s.0 < self.objects@.len() && self.objects@[s.0 as int] is Some
    }

    /// What the invariant says of the contents: the selection names a live
    /// object, and every live object's indices are whole triangles of its
    /// vertices.
    pub proof fn lemma_wf(&self)
        requires
            self.wf(),
        ensures
            self@.selected matches Some(k) ==> is_live(self@, k),
            forall|k: int|
                #![trigger self@.objects[k]]
                is_live(self@, k) ==> indices_valid(
                    self@.objects[k]->Some_0.indices,
                    self@.objects[k]->Some_0.vertices.len() as int,
                ),
    {
        assert forall|k: int|
            #![trigger self@.objects[k]]
            is_live(self@, k) implies indices_valid(
                self@.objects[k]->Some_0.indices,
                self@.objects[k]->Some_0.vertices.len() as int,
            ) by {
            let o = self.objects@[k]->Some_0;
            assert(self.objects@[k] matches Some(x) ==> x.wf());
            o.lemma_wf();
        }
    }

    /// A session with no object and nothing selected.
    pub fn new() -> (r: Self)
        ensures
            r.wf(),
            r@.objects.len() == 0,
            r@.selected is None,
    {
        EditSession { objects: Vec::new(), selected: None }
    }

    pub fn selected(&self) -> (r: Option<SelectedEntity>)
        ensures
            r matches Some(s) ==> self@.selected == Some(s.0 as int),
            r is None ==> self@.selected is None,
    {
        self.selected
    }

    /// The number of keys handed out so far.
    pub fn key_count(&self) -> (r: usize)
        ensures
            r == self@.objects.len(),
    {
        self.objects.len()
    }

    /// The live object under `key`, if any.
    pub fn object(&self, key: usize) -> (r: Option<&MapObject>)
        requires
            self.wf(),
        ensures
            r is Some <==> is_live(self@, key as int),
            r matches Some(o) ==> o.wf() && Some(o@) == self@.objects[key as int],
    {
        if key < self.objects.len() {
            match &self.objects[key] {
                Some(o) => Some(o),
                None => None,
            }
        } else {
            None
        }
    }

    /// Adds an object, such as one read from disk, under a new key; the
    /// selection stays.
    pub fn add_object(&mut self, object: MapObject) -> (r: usize)
        requires
            old(self).wf(),
            object.wf(),
        ensures
            final(self).wf(),
            r == old(self)@.objects.len(),
            final(self)@.objects == old(self)@.objects.push(Some(object@)),
            final(self)@.selected == old(self)@.selected,
    {
        let key = self.objects.len();
        self.objects.push(Some(object));
        proof {
            assert(self@.objects =~= old(self)@.objects.push(Some(object@)));
        }
        key
    }

    /// The vertex list that a primary click at `p` is to triangulate.
    pub fn vertices_after_click(&self, p: Point) -> (r: Vec<Point>)
        requires
            self.wf(),
        ensures
            r@ == vertices_after_click(self@, p),
    {
        match self.selected {
            Some(s) => {
                let mut v = match &self.objects[s.0] {
                    Some(o) => o.get_vertices(),
                    None => Vec::new(),
                };
                v.push(p);
                v
            },
            None => vec![p],
        }
    }

    /// A primary click at `p`: the vertex list `vertices_after_click(p)` is
    /// triangulated, the object it makes is spawned under a new key and
    /// selected, and the object it replaces is despawned. A vertex list too
    /// long for `u32` indices changes nothing.
    pub fn primary_click(&mut self, p: Point) -> (r: Result<ClickOutcome, MeshError>)
        requires
            old(self).wf(),
        ensures
            final(self).wf(),
            r is Ok <==> vertices_after_click(old(self)@, p).len() <= u32::MAX,
            r matches Ok(out) ==> {
                &&& out.spawned == old(self)@.objects.len()
                &&& out.despawned == match old(self)@.selected {
                    Some(k) => Some(k as usize),
                    None => None::<usize>,
                }
                &&& final(self)@.objects == objects_after_click(
                    old(self)@,
                    MapObjectView {
                        name: UNNAMED@,
                        vertices: vertices_after_click(old(self)@, p),
                        indices: delaunay_indices(vertices_after_click(old(self)@, p)),
                    },
                )
                &&& final(self)@.selected == Some(out.spawned as int)
            },
            r matches Err(e) ==> e == MeshError::TooManyVertices && final(self)@ == old(self)@,
    {
        let vertices = self.vertices_after_click(p);
        if vertices.len() > u32::MAX as usize {
            return Err(MeshError::TooManyVertices);
        }
        let ghost vs = vertices@;
        let rebuilt = MapObject::map_object_from_vertices(vertices);
        let key = self.objects.len();
        let despawned = match self.selected {
            Some(s) => {
                self.objects.set(s.0, None);
                Some(s.0)
            },
            None => None,
        };
        self.objects.push(Some(rebuilt));
        self.selected = Some(SelectedEntity(key));
        proof {
            let ghost rebuilt_view = MapObjectView {
                name: UNNAMED@,
                vertices: vs,
                indices: delaunay_indices(vs),
            };
            assert(self@.objects =~= objects_after_click(old(self)@, rebuilt_view));
        }
        Ok(ClickOutcome { spawned: key, despawned })
    }

    /// A secondary click that hit the object under `hit`, or nothing: a live
    /// object hit becomes the selected one, and a click on nothing, or on a
    /// key that names no live object, clears the selection.
    pub fn secondary_click(&mut self, hit: Option<usize>)
        requires
            old(self).wf(),
        ensures
            final(self).wf(),
            final(self)@.objects == old(self)@.objects,
            final(self)@.selected == match hit {
                Some(k) => if is_live(old(self)@, k as int) {
                    Some(k as int)
                } else {
                    None
                },
                None => None,
            },
    {
        self.selected = match hit {
            Some(k) => if k < self.objects.len() && self.objects[k].is_some() {
                Some(SelectedEntity(k))
            } else {
                None
            },
            None => None,
        };
    }
}

} // verus!

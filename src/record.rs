//! The binary record that persists a polygon: its vertex list alone, as an
//! rkyv archive of `[x, y, 0]` triples of `i32`. Triangles are computed again
//! on load.
//!
//! The archive is in the machine's own byte order, so records move between
//! machines of one byte order only. A file holding `f32` triples in the same
//! archive layout is not told apart: its `0.0` third components read as `0`,
//! and its coordinates read as the integers with the same bits.

use vstd::prelude::*;

use crate::geometry::Point;

verus! {

/// The bytes that `rkyv::to_bytes` writes for a list of triples.
pub uninterp spec fn archived_bytes(v: Seq<[i32; 3]>) -> Seq<u8>;

/// What `rkyv::from_bytes` reads back from some bytes: the list of triples,
/// or `None` when the bytes do not pass its check.
pub uninterp spec fn unarchived(b: Seq<u8>) -> Option<Seq<[i32; 3]>>;

/// The most vertices a record holds. The archive reaches its data through a
/// 32-bit relative offset (rkyv's default `size_32`), which `RelPtr::emplace`
/// unwraps; twelve bytes per vertex keep the data below 2^31 bytes.
pub const MAX_RECORD_VERTICES: usize = 178_956_970;

/// Relies on `rkyv::to_bytes`: the archive of the list. For a list of
/// triples within the offset range it has no error: the scratch space falls
/// back to an allocator without a limit, and no pointer is shared. As rkyv
/// documents, what `to_bytes` writes, `from_bytes` reads back as the list it
/// came from.
#[verifier::external_body]
fn archive_triples(v: &Vec<[i32; 3]>) -> (r: Option<Vec<u8>>)
    requires
        v@.len() <= MAX_RECORD_VERTICES,
    ensures
        r is Some,
        r matches Some(b) ==> b@ == archived_bytes(v@),
        r matches Some(b) ==> unarchived(b@) == Some(v@),
{
    match rkyv::to_bytes::<Vec<[i32; 3]>, 256>(v) {
        Ok(bytes) => Some(bytes.into_vec()),
        Err(_) => None,
    }
}

/// Relies on `rkyv::from_bytes`: checks the archive and reads the list back
/// (copied first into an aligned buffer, as the check asks).
#[verifier::external_body]
fn unarchive_triples(b: &Vec<u8>) -> (r: Option<Vec<[i32; 3]>>)
    ensures
        r matches Some(v) ==> unarchived(b@) == Some(v@),
        r is None ==> unarchived(b@) is None,
{
    let mut aligned = rkyv::AlignedVec::new();
    aligned.extend_from_slice(b);
    rkyv::from_bytes::<Vec<[i32; 3]>>(&aligned).ok()
}

/// Why a record could not be read.
#[derive(Clone, Copy, PartialEq, Eq, Structural, Debug)]
pub enum RecordError {
    /// No record is stored under the name.
    NotFound,
    /// The bytes are not the archive of a vertex list in the plane.
    Corrupt,
}

/// A vertex as stored: its coordinates and a zero third component.
pub open spec fn triple_of(p: Point) -> [i32; 3] {
    [p.x, p.y, 0]
}

pub open spec fn triples_of(v: Seq<Point>) -> Seq<[i32; 3]> {
    v.map_values(|p: Point| triple_of(p))
}

/// Every stored vertex lies in the plane of the map.
pub open spec fn in_plane(ts: Seq<[i32; 3]>) -> bool {
    forall|i: int| 0 <= i < ts.len() ==> #[trigger] ts[i][2] == 0
}

pub open spec fn points_of(ts: Seq<[i32; 3]>) -> Seq<Point> {
    ts.map_values(|t: [i32; 3]| Point { x: t[0], y: t[1] })
}

/// The vertex list that the bytes of a record hold, if they hold one.
pub open spec fn record_points(b: Seq<u8>) -> Option<Seq<Point>> {
    match unarchived(b) {
        Some(ts) => if in_plane(ts) {
            Some(points_of(ts))
        } else {
            None
        },
        None => None,
    }
}

/// Storing a vertex list as triples and reading the triples back gives the
/// list again, in order.
pub proof fn lemma_triples_round_trip(v: Seq<Point>)
    ensures
        in_plane(triples_of(v)),
        points_of(triples_of(v)) == v,
{
    assert(points_of(triples_of(v)) =~= v);
}

/// The record of a vertex list: the archive of its triples; `None` when the
/// list is too long for a record. The record reads back as the same list,
/// in the same order.
pub fn vertex_record(vertices: &Vec<Point>) -> (r: Option<Vec<u8>>)
    ensures
        r is Some <==> vertices@.len() <= MAX_RECORD_VERTICES,
        r matches Some(b) ==> b@ == archived_bytes(triples_of(vertices@)),
        r matches Some(b) ==> record_points(b@) == Some(vertices@),
{
    if vertices.len() > MAX_RECORD_VERTICES {
        return None;
    }
    let mut triples: Vec<[i32; 3]> = Vec::new();
    let mut i: usize = 0;
    while i < vertices.len()
        invariant
            i <= vertices@.len(),
            vertices@.len() <= MAX_RECORD_VERTICES,
            triples@.len() == i,
            forall|j: int| 0 <= j < i ==> #[trigger] triples@[j] == triple_of(vertices@[j]),
        decreases vertices@.len() - i,
    {
        let p = vertices[i];
        let t: [i32; 3] = [p.x, p.y, 0];
        assert(t == triple_of(p)) by {
            assert(t@ =~= triple_of(p)@);
        }
        triples.push(t);
        i = i + 1;
    }
    assert(triples@ =~= triples_of(vertices@));
    proof {
        lemma_triples_round_trip(vertices@);
    }
    archive_triples(&triples)
}

/// The vertex list that a record holds. Bytes that are no archive of a list
/// of triples, or whose triples leave the plane, are `Corrupt`.
pub fn vertices_from_record(bytes: &Vec<u8>) -> (r: Result<Vec<Point>, RecordError>)
    ensures
        match r {
            Ok(v) => record_points(bytes@) == Some(v@),
            Err(e) => e == RecordError::Corrupt && record_points(bytes@) is None,
        },
{
    let triples = match unarchive_triples(bytes) {
        Some(t) => t,
        None => {
            return Err(RecordError::Corrupt);
        },
    };
    let mut points: Vec<Point> = Vec::new();
    let mut i: usize = 0;
    while i < triples.len()
        invariant
            unarchived(bytes@) == Some(triples@),
            i <= triples@.len(),
            points@.len() == i,
            forall|j: int| 0 <= j < i ==> #[trigger] triples@[j][2] == 0,
            forall|j: int|
                0 <= j < i ==> #[trigger] points@[j] == (Point { x: triples@[j][0], y: triples@[j][1] }),
        decreases triples@.len() - i,
    {
        let t = triples[i];
        if t[2] != 0 {
            assert(triples@[i as int][2] != 0);
            return Err(RecordError::Corrupt);
        }
        points.push(Point { x: t[0], y: t[1] });
        i = i + 1;
    }
    assert(points@ =~= points_of(triples@));
    Ok(points)
}

/// The vertex lists of the records that can be read, in their order; the
/// others are passed over.
pub open spec fn readable_records(rs: Seq<Seq<u8>>) -> Seq<Seq<Point>>
    decreases rs.len(),
{
    if rs.len() == 0 {
        seq![]
    } else {
        let before = readable_records(rs.drop_last());
        match record_points(rs.last()) {
            Some(v) => before.push(v),
            None => before,
        }
    }
}

/// Reads every record that can be read; one that cannot does not stop the
/// others. Returns the vertex lists, in order, and the positions of the
/// records that could not be read.
pub fn vertices_from_records(records: &Vec<Vec<u8>>) -> (r: (Vec<Vec<Point>>, Vec<usize>))
    ensures
        r.0@.map_values(|v: Vec<Point>| v@) == readable_records(
            records@.map_values(|b: Vec<u8>| b@),
        ),
        forall|k: int|
            0 <= k < r.1@.len() ==> #[trigger] r.1@[k] < records@.len() && record_points(
                records@[r.1@[k] as int]@,
            ) is None,
        r.0@.len() + r.1@.len() == records@.len(),
{
    let ghost rs = records@.map_values(|b: Vec<u8>| b@);
    let mut lists: Vec<Vec<Point>> = Vec::new();
    let mut unreadable: Vec<usize> = Vec::new();
    let mut i: usize = 0;
    while i < records.len()
        invariant
            rs == records@.map_values(|b: Vec<u8>| b@),
            i <= records@.len(),
            lists@.map_values(|v: Vec<Point>| v@) == readable_records(rs.take(i as int)),
            forall|k: int|
                0 <= k < unreadable@.len() ==> #[trigger] unreadable@[k] < i && record_points(
                    records@[unreadable@[k] as int]@,
                ) is None,
            lists@.len() + unreadable@.len() == i,
        decreases records@.len() - i,
    {
        assert(rs.take(i + 1).drop_last() =~= rs.take(i as int));
        assert(rs.take(i + 1).last() == records@[i as int]@);
        match vertices_from_record(&records[i]) {
            Ok(v) => {
                lists.push(v);
                assert(lists@.map_values(|v: Vec<Point>| v@) =~= readable_records(
                    rs.take(i + 1),
                ));
            },
            Err(_) => {
                unreadable.push(i);
                assert(lists@.map_values(|v: Vec<Point>| v@) =~= readable_records(
                    rs.take(i + 1),
                ));
            },
        }
        i = i + 1;
    }
    assert(rs.take(records@.len() as int) =~= rs);
    (lists, unreadable)
}

} // verus!

use map_editor::geometry::Point;
use map_editor::meshes::MapObject;
use map_editor::record::{vertex_record, vertices_from_record, vertices_from_records, RecordError};

fn q(x: i32, y: i32) -> Point {
    Point { x, y }
}

#[test]
fn record_round_trip_keeps_order() {
    let v = vec![q(3, 4), q(-7, 100), q(i32::MAX, i32::MIN), q(0, 0)];
    let bytes = vertex_record(&v).unwrap();
    assert_eq!(vertices_from_record(&bytes), Ok(v));
}

#[test]
fn record_round_trip_single_vertex() {
    let v = vec![q(5, 5)];
    let bytes = vertex_record(&v).unwrap();
    assert_eq!(vertices_from_record(&bytes), Ok(v));
}

#[test]
fn record_is_an_archive_of_triples() {
    let v = vec![q(1, 2), q(3, 4)];
    let bytes = vertex_record(&v).unwrap();
    let expected = rkyv::to_bytes::<Vec<[i32; 3]>, 256>(&vec![[1, 2, 0], [3, 4, 0]]).unwrap();
    assert_eq!(bytes, expected.into_vec());
}

#[test]
fn empty_vertex_list_has_a_record() {
    let bytes = vertex_record(&vec![]).unwrap();
    assert_eq!(vertices_from_record(&bytes), Ok(vec![]));
}

#[test]
fn garbage_is_corrupt() {
    assert_eq!(vertices_from_record(&vec![]), Err(RecordError::Corrupt));
    assert_eq!(vertices_from_record(&vec![1, 2, 3]), Err(RecordError::Corrupt));
    assert_eq!(vertices_from_record(&vec![0xff; 8]), Err(RecordError::Corrupt));
}

#[test]
fn vertices_off_the_plane_are_corrupt() {
    let bytes = rkyv::to_bytes::<Vec<[i32; 3]>, 256>(&vec![[1, 2, 0], [3, 4, 7]]).unwrap();
    assert_eq!(vertices_from_record(&bytes.into_vec()), Err(RecordError::Corrupt));
}

#[test]
fn bulk_load_skips_unreadable_records() {
    let a = vec![q(1, 1), q(2, 2), q(3, 1)];
    let b = vec![q(-4, 9)];
    let records = vec![vertex_record(&a).unwrap(), vec![9, 9, 9], vertex_record(&b).unwrap()];
    let (lists, unreadable) = vertices_from_records(&records);
    assert_eq!(lists, vec![a, b]);
    assert_eq!(unreadable, vec![1]);
}

#[test]
fn saving_an_unnamed_object_warns_and_stays_readable() {
    let points = vec![q(0, 0), q(10, 0), q(0, 10)];
    let object = MapObject::map_object_from_vertices(points.clone());
    assert!(object.is_unnamed());
    assert_eq!(object.record_file_name(), "unnamed.bin");
    let bytes = object.object_to_record().unwrap();
    assert_eq!(vertices_from_record(&bytes), Ok(points));
}

#[test]
fn named_object_saves_under_its_name() {
    let object = MapObject::map_object_from_vertices(vec![q(0, 0)]).name("rock");
    assert!(!object.is_unnamed());
    assert_eq!(object.object_name(), "rock");
    assert_eq!(object.record_file_name(), "rock.bin");
}

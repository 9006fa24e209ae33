use map_editor::geometry::Point;
use map_editor::meshes::{MapObject, PrimitiveKind};
use map_editor::session::{ClickOutcome, EditSession, SelectedEntity};

fn at(x: i32, y: i32) -> Point {
    Point { x, y }
}

fn click(s: &mut EditSession, p: Point) -> ClickOutcome {
    s.primary_click(p).unwrap()
}

fn live_keys(s: &EditSession) -> Vec<usize> {
    (0..s.key_count()).filter(|k| s.object(*k).is_some()).collect()
}

#[test]
fn clicks_build_one_object_and_replace_it() {
    let mut s = EditSession::new();
    assert_eq!(click(&mut s, at(5, 5)), ClickOutcome { spawned: 0, despawned: None });
    assert_eq!(click(&mut s, at(15, 5)), ClickOutcome { spawned: 1, despawned: Some(0) });
    assert_eq!(click(&mut s, at(15, 15)), ClickOutcome { spawned: 2, despawned: Some(1) });
    assert_eq!(live_keys(&s), vec![2]);
    let o = s.object(2).unwrap();
    assert_eq!(o.get_vertices(), vec![at(5, 5), at(15, 5), at(15, 15)]);
    assert_eq!(o.get_indices().len() / 3, 1);
    assert_eq!(o.primitive(), PrimitiveKind::TriangleList);

    assert_eq!(click(&mut s, at(5, 15)), ClickOutcome { spawned: 3, despawned: Some(2) });
    assert_eq!(live_keys(&s), vec![3]);
    let o = s.object(3).unwrap();
    assert_eq!(o.get_vertices(), vec![at(5, 5), at(15, 5), at(15, 15), at(5, 15)]);
    assert_eq!(o.get_indices().len() / 3, 2);
    assert_eq!(s.selected(), Some(SelectedEntity(3)));
}

#[test]
fn primitive_follows_vertex_count() {
    let mut s = EditSession::new();
    click(&mut s, at(0, 0));
    let o = s.object(0).unwrap();
    assert_eq!(o.primitive(), PrimitiveKind::PointList);
    assert!(o.collider_triangles().is_none());
    click(&mut s, at(10, 0));
    let o = s.object(1).unwrap();
    assert_eq!(o.primitive(), PrimitiveKind::LineList);
    assert!(o.collider_triangles().is_none());
    click(&mut s, at(0, 10));
    let o = s.object(2).unwrap();
    assert_eq!(o.collider_triangles().as_ref().unwrap().len(), 1);
}

#[test]
fn vertices_after_click_extend_the_selection() {
    let mut s = EditSession::new();
    assert_eq!(s.vertices_after_click(at(1, 1)), vec![at(1, 1)]);
    click(&mut s, at(0, 0));
    assert_eq!(s.vertices_after_click(at(1, 1)), vec![at(0, 0), at(1, 1)]);
}

#[test]
fn secondary_click_moves_or_clears_the_selection() {
    let mut s = EditSession::new();
    click(&mut s, at(0, 0));
    let loaded = MapObject::map_object_from_vertices(vec![at(50, 50)]);
    let key = s.add_object(loaded);
    assert_eq!(key, 1);
    assert_eq!(s.selected(), Some(SelectedEntity(0)));
    s.secondary_click(Some(1));
    assert_eq!(s.selected(), Some(SelectedEntity(1)));
    s.secondary_click(Some(1));
    assert_eq!(s.selected(), Some(SelectedEntity(1)));
    s.secondary_click(None);
    assert_eq!(s.selected(), None);
    s.secondary_click(Some(7));
    assert_eq!(s.selected(), None);
}

#[test]
fn click_after_deselect_starts_a_new_object() {
    let mut s = EditSession::new();
    click(&mut s, at(0, 0));
    s.secondary_click(None);
    assert_eq!(click(&mut s, at(9, 9)), ClickOutcome { spawned: 1, despawned: None });
    assert_eq!(live_keys(&s), vec![0, 1]);
    assert_eq!(s.object(1).unwrap().get_vertices(), vec![at(9, 9)]);
}

#[test]
fn new_object_checks_its_indices() {
    assert!(MapObject::new(vec![at(0, 0), at(1, 0), at(0, 1)], vec![0, 1, 2]).is_some());
    assert!(MapObject::new(vec![at(0, 0), at(1, 0), at(0, 1)], vec![0, 1, 3]).is_none());
    assert!(MapObject::new(vec![at(0, 0), at(1, 0), at(0, 1)], vec![0, 1]).is_none());
}

use map_editor::base::BaseMapMeshInfo;
use map_editor::geometry::{signed_area2, IsPointInTriangle, Point};
use map_editor::mesh::Centroid;

fn p(x: i32, y: i32) -> Point {
    Point { x, y }
}

#[test]
fn default_base_mesh_is_a_quad_of_two_triangles() {
    let m = BaseMapMeshInfo::default();
    assert_eq!(m.vertices(), &vec![p(-200000, -200000), p(200000, -200000), p(200000, 200000), p(-200000, 200000)]);
    assert_eq!(m.indices(), &vec![0, 1, 2, 2, 3, 0]);
    assert_eq!(
        m.center_points(),
        &vec![Centroid { x3: 200000, y3: -200000 }, Centroid { x3: -200000, y3: 200000 }]
    );
}

#[test]
fn closest_triangle_by_centroid() {
    let m = BaseMapMeshInfo::default();
    assert_eq!(m.cloest_triangle_to_point(p(150000, -150000)), Some(0));
    assert_eq!(m.cloest_triangle_to_point(p(-150000, 150000)), Some(1));
}

#[test]
fn closest_triangle_tie_goes_to_the_first() {
    let m = BaseMapMeshInfo::default();
    assert_eq!(m.cloest_triangle_to_point(p(0, 0)), Some(0));
}

#[test]
fn closest_triangle_is_deterministic() {
    let m = BaseMapMeshInfo::default();
    let first = m.cloest_triangle_to_point(p(37000, -12000));
    for _ in 0..10 {
        assert_eq!(m.cloest_triangle_to_point(p(37000, -12000)), first);
    }
}

#[test]
fn closest_triangle_of_empty_mesh_is_none() {
    let mut m = BaseMapMeshInfo::default();
    m.remove_triangle(1);
    m.remove_triangle(0);
    assert!(m.indices().is_empty());
    assert!(m.center_points().is_empty());
    assert_eq!(m.cloest_triangle_to_point(p(0, 0)), None);
}

#[test]
fn triangle_and_center_point_lookup() {
    let m = BaseMapMeshInfo::default();
    assert_eq!(m.triangle(1), [p(200000, 200000), p(-200000, 200000), p(-200000, -200000)]);
    assert_eq!(m.center_point(1), Centroid { x3: -200000, y3: 200000 });
}

#[test]
fn remove_triangle_drops_its_indices_and_centroid() {
    let mut m = BaseMapMeshInfo::default();
    m.remove_triangle(0);
    assert_eq!(m.indices(), &vec![2, 3, 0]);
    assert_eq!(m.center_points(), &vec![Centroid { x3: -200000, y3: 200000 }]);
    assert_eq!(m.vertices().len(), 4);
}

#[test]
fn subdivide_adds_two_triangles_and_one_vertex() {
    let mut m = BaseMapMeshInfo::default();
    let before = m.triangle(0);
    let new_point = p(100000, -100000);
    assert!(before.is_point_in_triangle(new_point));
    m.subdivide_triangle(0, new_point);
    assert_eq!(m.vertices().len(), 5);
    assert_eq!(m.vertices()[4], new_point);
    assert_eq!(m.indices(), &vec![2, 3, 0, 4, 1, 2, 0, 4, 2, 0, 1, 4]);
    assert_eq!(m.center_points().len(), 4);
    assert_eq!(m.center_point(1), Centroid { x3: 500000, y3: -100000 });
    let areas: i128 = (1..4u32).map(|t| signed_area2(&m.triangle(t)).abs()).sum();
    assert_eq!(areas, signed_area2(&before).abs());
}

#[test]
fn subdivide_then_locate_the_new_triangles() {
    let mut m = BaseMapMeshInfo::default();
    m.subdivide_triangle(1, p(-100000, 100000));
    let t = m.cloest_triangle_to_point(p(-190000, 150000)).unwrap();
    assert!(m.triangle(t).is_point_in_triangle(p(-190000, 150000)));
}

#[test]
fn click_subdivides_the_enclosing_triangle() {
    let mut m = BaseMapMeshInfo::default();
    assert_eq!(m.enclosing_triangle(p(-100000, 100000)), Some(1));
    assert_eq!(m.subdivide_at(p(-100000, 100000)), Some(1));
    assert_eq!(m.vertices().len(), 5);
    assert_eq!(m.indices().len(), 12);
    assert_eq!(&m.indices()[0..3], &[0, 1, 2]);
}

#[test]
fn click_on_the_shared_diagonal_goes_to_the_first_triangle_that_holds_it() {
    let m = BaseMapMeshInfo::default();
    // The diagonal runs from corner 0 to corner 2 of triangle 0, an edge
    // that its test admits.
    assert_eq!(m.enclosing_triangle(p(0, 0)), Some(0));
}

#[test]
fn click_outside_the_base_mesh_changes_nothing() {
    let mut m = BaseMapMeshInfo::default();
    assert_eq!(m.subdivide_at(p(500000, 500000)), None);
    assert_eq!(m.vertices().len(), 4);
    assert_eq!(m.indices(), &vec![0, 1, 2, 2, 3, 0]);
}

use map_editor::geometry::{signed_area2, IsPointInTriangle, Point};
use map_editor::mesh::{calc_center_points, triangle_triples, triangulate, Centroid};

fn pt(x: i32, y: i32) -> Point {
    Point { x, y }
}

#[test]
fn test_triangulate() {
    let points = vec![pt(0, 0), pt(1, 0), pt(1, 1), pt(0, 1)];
    let result = triangulate(&points);
    assert_eq!(result, vec![0, 2, 1, 0, 3, 2]);
}

#[test]
fn square_of_side_ten_triangulates_to_two_triangles() {
    let points = vec![pt(0, 0), pt(10, 0), pt(10, 10), pt(0, 10)];
    let result = triangulate(&points);
    assert_eq!(result, vec![0, 2, 1, 0, 3, 2]);
}

#[test]
fn triangulation_matches_euler_count() {
    // n = 5 points, h = 4 of them on the hull: 2n - 2 - h = 4 triangles.
    let points = vec![pt(0, 0), pt(10, 0), pt(10, 10), pt(0, 10), pt(4, 6)];
    let result = triangulate(&points);
    assert_eq!(result.len() / 3, 4);
    for k in 0..points.len() as u32 {
        assert!(result.contains(&k));
    }
}

#[test]
fn few_or_collinear_points_give_no_triangle() {
    for points in [vec![], vec![pt(1, 1)], vec![pt(1, 1), pt(5, 2)], vec![pt(0, 0), pt(1, 1), pt(2, 2)]] {
        let result = triangulate(&points);
        assert!(result.is_empty());
    }
}

#[test]
fn triangulation_indices_name_the_given_points() {
    let points = vec![pt(3, 1), pt(-7, 4), pt(2, 9), pt(0, 0), pt(5, -6), pt(8, 8)];
    let result = triangulate(&points);
    assert_eq!(result.len() % 3, 0);
    assert!(!result.is_empty());
    assert!(result.iter().all(|&k| (k as usize) < points.len()));
}

#[test]
fn point_in_triangle_inside_and_outside() {
    let t = [pt(0, 0), pt(10, 0), pt(0, 10)];
    assert!(t.is_point_in_triangle(pt(2, 3)));
    assert!(!t.is_point_in_triangle(pt(20, 20)));
    assert!(!t.is_point_in_triangle(pt(-1, 3)));
}

#[test]
fn point_in_triangle_edges_follow_the_barycentric_inequalities() {
    let t = [pt(0, 0), pt(10, 0), pt(0, 10)];
    // u >= 0 and v >= 0 admit the corner t[0] and the edges through it.
    assert!(t.is_point_in_triangle(pt(0, 0)));
    assert!(t.is_point_in_triangle(pt(5, 0)));
    assert!(t.is_point_in_triangle(pt(0, 5)));
    // u + v < 1 leaves out the edge from t[1] to t[2].
    assert!(!t.is_point_in_triangle(pt(5, 5)));
    assert!(!t.is_point_in_triangle(pt(10, 0)));
}

#[test]
fn point_in_triangle_clockwise_corners() {
    let t = [pt(0, 0), pt(0, 10), pt(10, 0)];
    assert!(t.is_point_in_triangle(pt(2, 3)));
    assert!(!t.is_point_in_triangle(pt(5, 5)));
}

#[test]
fn degenerate_triangle_contains_nothing() {
    let t = [pt(0, 0), pt(5, 5), pt(10, 10)];
    assert!(!t.is_point_in_triangle(pt(5, 5)));
    assert!(!t.is_point_in_triangle(pt(0, 0)));
}

#[test]
fn signed_area_is_twice_the_area_with_orientation() {
    assert_eq!(signed_area2(&[pt(0, 0), pt(10, 0), pt(0, 10)]), 100);
    assert_eq!(signed_area2(&[pt(0, 0), pt(0, 10), pt(10, 0)]), -100);
    assert_eq!(signed_area2(&[pt(i32::MIN, i32::MIN), pt(i32::MAX, i32::MIN), pt(i32::MIN, i32::MAX)]), (u32::MAX as i128) * (u32::MAX as i128));
}

#[test]
fn centroids_are_the_mean_of_three_corners() {
    let vertices = vec![pt(0, 0), pt(10, 0), pt(10, 10), pt(0, 10)];
    let indices = vec![0, 1, 2, 2, 3, 0];
    let cs = calc_center_points(&vertices, &indices);
    assert_eq!(cs, vec![Centroid { x3: 20, y3: 10 }, Centroid { x3: 10, y3: 20 }]);
}

#[test]
fn index_list_groups_into_triples() {
    assert_eq!(triangle_triples(&vec![0, 1, 2, 2, 3, 0]), vec![[0, 1, 2], [2, 3, 0]]);
    assert!(triangle_triples(&vec![]).is_empty());
}

use pupil::collisions::{are_triangles_colliding, distance_point_to_segment, Triangle, Vec2};

fn v(x: i64, y: i64) -> Vec2 {
    Vec2 { x, y }
}

fn tri(a: (i64, i64), b: (i64, i64), c: (i64, i64)) -> Triangle {
    Triangle { a: v(a.0, a.1), b: v(b.0, b.1), c: v(c.0, c.1) }
}

#[test]
fn overlapping_triangles_collide() {
    let t1 = tri((0, 0), (10, 0), (0, 10));
    let t2 = tri((2, 2), (12, 2), (2, 12));
    assert!(are_triangles_colliding(&t1, &t2));
}

#[test]
fn separated_triangles_do_not_collide() {
    let t1 = tri((0, 0), (10, 0), (0, 10));
    let t2 = tri((100, 100), (110, 100), (100, 110));
    assert!(!are_triangles_colliding(&t1, &t2));
}

#[test]
fn edge_separation_with_overlapping_boxes() {
    // The bounding boxes overlap, but the diagonal edge separates.
    let t1 = tri((0, 0), (10, 0), (0, 10));
    let t2 = tri((9, 9), (14, 9), (9, 14));
    assert!(!are_triangles_colliding(&t1, &t2));
}

#[test]
fn collision_is_symmetric() {
    let pairs = [
        (tri((0, 0), (10, 0), (0, 10)), tri((2, 2), (12, 2), (2, 12))),
        (tri((0, 0), (10, 0), (0, 10)), tri((100, 100), (110, 100), (100, 110))),
        (tri((0, 0), (10, 0), (0, 10)), tri((9, 9), (14, 9), (9, 14))),
        (tri((-5, -5), (5, -5), (0, 5)), tri((0, 0), (1, 0), (0, 1))),
    ];
    for (t1, t2) in pairs {
        assert_eq!(
            are_triangles_colliding(&t1, &t2),
            are_triangles_colliding(&t2, &t1)
        );
    }
}

#[test]
fn contained_vertex_collides() {
    // A vertex of the second triangle lies strictly inside the first.
    let t1 = tri((0, 0), (100, 0), (0, 100));
    let t2 = tri((10, 10), (200, 10), (10, 200));
    assert!(are_triangles_colliding(&t1, &t2));
    // Full containment collides too.
    let t3 = tri((10, 10), (20, 10), (10, 20));
    assert!(are_triangles_colliding(&t1, &t3));
}

#[test]
fn touching_boundary_counts_as_collision() {
    // The triangles share only the edge x = 10.
    let t1 = tri((0, 0), (10, 0), (10, 10));
    let t2 = tri((10, 0), (20, 0), (10, 10));
    assert!(are_triangles_colliding(&t1, &t2));
}

#[test]
fn triangle_accessors() {
    let t = tri((1, 2), (3, 4), (5, 6));
    assert_eq!(t.get_points(), vec![v(1, 2), v(3, 4), v(5, 6)]);
    assert_eq!(
        t.get_edges(),
        vec![(v(1, 2), v(3, 4)), (v(1, 2), v(5, 6)), (v(3, 4), v(5, 6))]
    );
    assert_eq!(
        t.get_trips(),
        vec![
            (v(1, 2), v(3, 4), v(5, 6)),
            (v(3, 4), v(5, 6), v(1, 2)),
            (v(5, 6), v(1, 2), v(3, 4)),
        ]
    );
    let u = tri((0, 0), (1, 0), (0, 1));
    assert!(t.is_colliding_with_triangle(&t));
    assert!(!u.is_colliding_with_triangle(&tri((5, 5), (6, 5), (5, 6))));
}

#[test]
fn distance_perpendicular() {
    // Point above the middle of a horizontal segment.
    let d = distance_point_to_segment(v(5, 7), (v(0, 0), v(10, 0)));
    assert_eq!(d, 7);
}

#[test]
fn distance_to_nearer_endpoint() {
    // The point projects past the left endpoint: a 3-4-5 triangle.
    let d = distance_point_to_segment(v(-3, 4), (v(0, 0), v(10, 0)));
    assert_eq!(d, 5);
}

#[test]
fn distance_vertical_segment() {
    let d = distance_point_to_segment(v(3, 5), (v(0, 0), v(0, 10)));
    assert_eq!(d, 3);
}

#[test]
fn distance_degenerate_segment() {
    let d = distance_point_to_segment(v(5, 6), (v(2, 2), v(2, 2)));
    assert_eq!(d, 5);
}

#[test]
fn distance_rounds_down() {
    // Distance to the diagonal line y = x is 1 / sqrt(2), which rounds to 0.
    let d = distance_point_to_segment(v(0, 1), (v(0, 0), v(10, 10)));
    assert_eq!(d, 0);
    // Distance 5 / sqrt(2) rounds down to 3.
    let d2 = distance_point_to_segment(v(0, 5), (v(0, 0), v(10, 10)));
    assert_eq!(d2, 3);
}

#[test]
fn distance_at_the_coordinate_limit() {
    // Opposite corners of the world: the endpoint distance is
    // sqrt(8) * 10^9, rounded down.
    let p = v(1_000_000_000, 1_000_000_000);
    let seg = (v(-1_000_000_000, -1_000_000_000), v(-999_999_999, -1_000_000_000));
    let d = distance_point_to_segment(p, seg);
    assert_eq!(d, 2_828_427_124);
}

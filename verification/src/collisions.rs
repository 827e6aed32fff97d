//! Geometry kernel: integer points, triangles, the triangle-triangle
//! collision test, and the point-to-segment distance.
//!
//! The collision test is a separating-axis search over the six directed
//! edges of the two triangles.  An edge separates the shapes when the
//! three vertices of the other triangle lie strictly on one side of the
//! edge's line while the first triangle's own opposite vertex lies
//! strictly on the other side; points exactly on the line never witness a
//! separation, so boundary contact counts as a collision.  A bounding-box
//! test runs first, so that shapes whose boxes do not meet are always
//! reported as non-colliding, degenerate triangles included.

use vstd::prelude::*;

use crate::consts::{COORD_LIMIT, TRI_LIMIT};
use vstd::arithmetic::div_mod::{lemma_fundamental_div_mod, lemma_mod_bound};

verus! {

/// A point or displacement in the integer plane.
#[derive(Clone, Copy, PartialEq, Eq, Structural, Debug)]
pub struct Vec2 {
    pub x: i64,
    pub y: i64,
}

/// A triangle given by its three ordered vertices.
#[derive(Clone, Copy, PartialEq, Eq, Structural, Debug)]
pub struct Triangle {
    pub a: Vec2,
    pub b: Vec2,
    pub c: Vec2,
}

/// Twice the signed area of the triangle `(a, b, p)`: the cross product
/// of `b - a` with `p - a`.  Positive when `p` lies to the left of the
/// directed line from `a` to `b`, negative to the right, zero on it.
pub open spec fn cross(a: Vec2, b: Vec2, p: Vec2) -> int {
    (b.x - a.x) * (p.y - a.y) - (b.y - a.y) * (p.x - a.x)
}

/// The point lies inside the coordinate range the collision kernel accepts.
pub open spec fn pt_in_range(p: Vec2) -> bool {
    &&& -TRI_LIMIT <= p.x <= TRI_LIMIT
    &&& -TRI_LIMIT <= p.y <= TRI_LIMIT
}

/// All three vertices lie inside the accepted coordinate range.
pub open spec fn tri_in_range(t: Triangle) -> bool {
    pt_in_range(t.a) && pt_in_range(t.b) && pt_in_range(t.c)
}

/// Smallest of three integers.
pub open spec fn min3(a: int, b: int, c: int) -> int {
    if a <= b && a <= c {
        a
    } else if b <= c {
        b
    } else {
        c
    }
}

/// Largest of three integers.
pub open spec fn max3(a: int, b: int, c: int) -> int {
    if a >= b && a >= c {
        a
    } else if b >= c {
        b
    } else {
        c
    }
}

/// Left edge of the triangle's axis-aligned bounding box.
pub open spec fn tri_min_x(t: Triangle) -> int {
    min3(t.a.x as int, t.b.x as int, t.c.x as int)
}

/// Right edge of the triangle's axis-aligned bounding box.
pub open spec fn tri_max_x(t: Triangle) -> int {
    max3(t.a.x as int, t.b.x as int, t.c.x as int)
}

/// Bottom edge of the triangle's axis-aligned bounding box.
pub open spec fn tri_min_y(t: Triangle) -> int {
    min3(t.a.y as int, t.b.y as int, t.c.y as int)
}

/// Top edge of the triangle's axis-aligned bounding box.
pub open spec fn tri_max_y(t: Triangle) -> int {
    max3(t.a.y as int, t.b.y as int, t.c.y as int)
}

/// The axis-aligned bounding boxes of the two triangles meet (shared
/// boundary points count as meeting).
pub open spec fn bboxes_overlap(t1: Triangle, t2: Triangle) -> bool {
    !(tri_max_x(t1) < tri_min_x(t2) || tri_max_x(t2) < tri_min_x(t1)
        || tri_max_y(t1) < tri_min_y(t2) || tri_max_y(t2) < tri_min_y(t1))
}

/// The directed edge from `a` to `b`, belonging to a triangle whose third
/// vertex is `c`, separates that triangle from `other`: all three vertices
/// of `other` lie strictly on one side of the edge's line and `c` lies
/// strictly on the opposite side.
pub open spec fn edge_separates(a: Vec2, b: Vec2, c: Vec2, other: Triangle) -> bool {
    ||| (cross(a, b, other.a) > 0 && cross(a, b, other.b) > 0 && cross(a, b, other.c) > 0
        && cross(a, b, c) < 0)
    ||| (cross(a, b, other.a) < 0 && cross(a, b, other.b) < 0 && cross(a, b, other.c) < 0
        && cross(a, b, c) > 0)
}

/// Some edge of one of the two triangles separates them.
pub open spec fn separating_edge_exists(t1: Triangle, t2: Triangle) -> bool {
    ||| edge_separates(t1.a, t1.b, t1.c, t2)
    ||| edge_separates(t1.b, t1.c, t1.a, t2)
    ||| edge_separates(t1.c, t1.a, t1.b, t2)
    ||| edge_separates(t2.a, t2.b, t2.c, t1)
    ||| edge_separates(t2.b, t2.c, t2.a, t1)
    ||| edge_separates(t2.c, t2.a, t2.b, t1)
}

/// The two triangles collide: their bounding boxes meet and no edge of
/// either triangle separates them.
pub open spec fn spec_triangles_colliding(t1: Triangle, t2: Triangle) -> bool {
    bboxes_overlap(t1, t2) && !separating_edge_exists(t1, t2)
}

/// The point `p` lies strictly inside the triangle `t`: for each directed
/// edge of `t`, `p` lies strictly on the same side as the vertex opposite
/// that edge.
pub open spec fn strictly_inside(p: Vec2, t: Triangle) -> bool {
    &&& cross(t.a, t.b, p) * cross(t.a, t.b, t.c) > 0
    &&& cross(t.b, t.c, p) * cross(t.b, t.c, t.a) > 0
    &&& cross(t.c, t.a, p) * cross(t.c, t.a, t.b) > 0
}

/// A product of two integers is positive exactly when the factors are
/// both positive or both negative.
proof fn lemma_product_sign(x: int, y: int)
    by (nonlinear_arith)
    ensures
        (x * y > 0) == ((x > 0 && y > 0) || (x < 0 && y < 0)),
{
}

/// Reversing a directed edge negates every cross product against it.
proof fn lemma_cross_reverse(a: Vec2, b: Vec2, p: Vec2)
    by (nonlinear_arith)
    ensures
        cross(b, a, p) == -cross(a, b, p),
{
}

/// The cross product against the edge from `u` to `v` is an affine
/// function of the queried point.
proof fn lemma_cross_is_affine(u: Vec2, v: Vec2, p: Vec2)
    by (nonlinear_arith)
    ensures
        cross(u, v, p) == (u.y - v.y) * p.x + (v.x - u.x) * p.y + (u.x * v.y - u.y * v.x),
{
}

/// Rotating the three arguments of the cross product leaves it unchanged.
proof fn lemma_cross_cyclic(a: Vec2, b: Vec2, c: Vec2)
    by (nonlinear_arith)
    ensures
        cross(a, b, c) == cross(b, c, a),
{
}

/// One-step algebra helpers for the solver's linear reasoning.
proof fn lemma_mul_comm(x: int, y: int)
    by (nonlinear_arith)
    ensures
        x * y == y * x,
{
}

proof fn lemma_assoc(x: int, y: int, z: int)
    by (nonlinear_arith)
    ensures
        (x * y) * z == x * (y * z),
{
}

proof fn lemma_dist(x: int, y: int, z: int)
    by (nonlinear_arith)
    ensures
        x * (y + z) == x * y + x * z,
{
}

proof fn lemma_dist_right(x: int, y: int, z: int)
    by (nonlinear_arith)
    ensures
        (x + y) * z == x * z + y * z,
{
}

proof fn lemma_expand2(x: int, y: int, z: int, w: int)
    by (nonlinear_arith)
    ensures
        (x - y) * (z - w) == x * z - x * w - y * z + y * w,
{
}

/// Weighting the two-monomial cross products of a triangle against the
/// origin by the matching x coordinates cancels exactly.
proof fn lemma_tri_cancel_x(ax: int, ay: int, bx: int, by0: int, cx: int, cy: int)
    by (nonlinear_arith)
    ensures
        ax * (bx * cy - by0 * cx) + bx * (ay * cx - ax * cy) + cx * (ax * by0 - ay * bx) == 0,
{
}

/// Mirror image of [`lemma_tri_cancel_x`] for the y coordinates.
proof fn lemma_tri_cancel_y(ax: int, ay: int, bx: int, by0: int, cx: int, cy: int)
    by (nonlinear_arith)
    ensures
        ay * (bx * cy - by0 * cx) + by0 * (ay * cx - ax * cy) + cy * (ax * by0 - ay * bx) == 0,
{
}

/// The coordinate functions interpolate across a triangle with the
/// sub-triangle areas as weights, and those weights sum to the whole
/// area.  Proved by translating the query point to the origin, where
/// every cross product involved has a two-monomial normal form.
proof fn lemma_interp_coords(a: Vec2, b: Vec2, c: Vec2, q: Vec2)
    ensures
        cross(q, b, c) + cross(a, q, c) + cross(a, b, q) == cross(a, b, c),
        q.x * cross(a, b, c)
            == a.x * cross(q, b, c) + b.x * cross(a, q, c) + c.x * cross(a, b, q),
        q.y * cross(a, b, c)
            == a.y * cross(q, b, c) + b.y * cross(a, q, c) + c.y * cross(a, b, q),
{
    let qx: int = q.x as int;
    let qy: int = q.y as int;
    let ax1: int = a.x - qx;
    let ay1: int = a.y - qy;
    let bx1: int = b.x - qx;
    let by1: int = b.y - qy;
    let cx1: int = c.x - qx;
    let cy1: int = c.y - qy;
    // Normal forms of the four cross products over translated coordinates.
    assert(cross(q, b, c) == bx1 * cy1 - by1 * cx1);
    assert(cross(a, q, c) == (0 - ax1) * (cy1 - ay1) - (0 - ay1) * (cx1 - ax1));
    lemma_expand2(0, ax1, cy1, ay1);
    lemma_expand2(0, ay1, cx1, ax1);
    lemma_mul_comm(ax1, ay1);
    assert(cross(a, q, c) == ay1 * cx1 - ax1 * cy1);
    assert(cross(a, b, q) == (bx1 - ax1) * (0 - ay1) - (by1 - ay1) * (0 - ax1));
    lemma_expand2(bx1, ax1, 0, ay1);
    lemma_expand2(by1, ay1, 0, ax1);
    lemma_mul_comm(by1, ax1);
    lemma_mul_comm(bx1, ay1);
    assert(cross(a, b, q) == ax1 * by1 - ay1 * bx1);
    assert(cross(a, b, c) == (bx1 - ax1) * (cy1 - ay1) - (by1 - ay1) * (cx1 - ax1));
    lemma_expand2(bx1, ax1, cy1, ay1);
    lemma_expand2(by1, ay1, cx1, ax1);
    assert(cross(q, b, c) + cross(a, q, c) + cross(a, b, q) == cross(a, b, c));
    // The translated weights cancel against the translated coordinates.
    lemma_tri_cancel_x(ax1, ay1, bx1, by1, cx1, cy1);
    lemma_tri_cancel_y(ax1, ay1, bx1, by1, cx1, cy1);
    assert(ax1 * cross(q, b, c) + bx1 * cross(a, q, c) + cx1 * cross(a, b, q) == 0);
    assert(ay1 * cross(q, b, c) + by1 * cross(a, q, c) + cy1 * cross(a, b, q) == 0);
    // Undo the translation on each coefficient.
    lemma_dist_right(ax1, qx, cross(q, b, c));
    lemma_dist_right(bx1, qx, cross(a, q, c));
    lemma_dist_right(cx1, qx, cross(a, b, q));
    lemma_dist_right(ay1, qy, cross(q, b, c));
    lemma_dist_right(by1, qy, cross(a, q, c));
    lemma_dist_right(cy1, qy, cross(a, b, q));
    lemma_dist(qx, cross(q, b, c) + cross(a, q, c), cross(a, b, q));
    lemma_dist(qx, cross(q, b, c), cross(a, q, c));
    lemma_dist(qy, cross(q, b, c) + cross(a, q, c), cross(a, b, q));
    lemma_dist(qy, cross(q, b, c), cross(a, q, c));
    assert(q.x * cross(a, b, c) == qx * (cross(q, b, c) + cross(a, q, c) + cross(a, b, q)));
    assert(q.y * cross(a, b, c) == qy * (cross(q, b, c) + cross(a, q, c) + cross(a, b, q)));
}

/// Linear combination step: the coordinate interpolation identities imply
/// the interpolation identity for any affine function.
proof fn lemma_affine_combine(
    al: int,
    be: int,
    ga: int,
    qx: int,
    qy: int,
    aa: int,
    ax: int,
    ay: int,
    bx: int,
    by0: int,
    cx: int,
    cy: int,
    l1: int,
    l2: int,
    l3: int,
)
    requires
        qx * aa == ax * l1 + bx * l2 + cx * l3,
        qy * aa == ay * l1 + by0 * l2 + cy * l3,
        aa == l1 + l2 + l3,
    ensures
        (al * qx + be * qy + ga) * aa
            == (al * ax + be * ay + ga) * l1 + (al * bx + be * by0 + ga) * l2
                + (al * cx + be * cy + ga) * l3,
{
    lemma_dist_right(al * qx + be * qy, ga, aa);
    lemma_dist_right(al * qx, be * qy, aa);
    lemma_assoc(al, qx, aa);
    lemma_assoc(be, qy, aa);
    lemma_dist(al, ax * l1 + bx * l2, cx * l3);
    lemma_dist(al, ax * l1, bx * l2);
    lemma_assoc(al, ax, l1);
    lemma_assoc(al, bx, l2);
    lemma_assoc(al, cx, l3);
    lemma_dist(be, ay * l1 + by0 * l2, cy * l3);
    lemma_dist(be, ay * l1, by0 * l2);
    lemma_assoc(be, ay, l1);
    lemma_assoc(be, by0, l2);
    lemma_assoc(be, cy, l3);
    lemma_dist(ga, l1 + l2, l3);
    lemma_dist(ga, l1, l2);
    lemma_dist_right(al * ax + be * ay, ga, l1);
    lemma_dist_right(al * ax, be * ay, l1);
    lemma_dist_right(al * bx + be * by0, ga, l2);
    lemma_dist_right(al * bx, be * by0, l2);
    lemma_dist_right(al * cx + be * cy, ga, l3);
    lemma_dist_right(al * cx, be * cy, l3);
}


/// Any affine function of the plane interpolates across a triangle: its
/// value at `q`, weighted by the triangle's doubled area, is the sum of
/// its vertex values weighted by the doubled areas of the sub-triangles
/// that `q` cuts off.
proof fn lemma_affine_interpolation(al: int, be: int, ga: int, a: Vec2, b: Vec2, c: Vec2, q: Vec2)
    ensures
        (al * q.x + be * q.y + ga) * cross(a, b, c)
            == (al * a.x + be * a.y + ga) * cross(q, b, c)
                + (al * b.x + be * b.y + ga) * cross(a, q, c)
                + (al * c.x + be * c.y + ga) * cross(a, b, q),
{
    lemma_interp_coords(a, b, c, q);
    lemma_affine_combine(
        al,
        be,
        ga,
        q.x as int,
        q.y as int,
        cross(a, b, c),
        a.x as int,
        a.y as int,
        b.x as int,
        b.y as int,
        c.x as int,
        c.y as int,
        cross(q, b, c),
        cross(a, q, c),
        cross(a, b, q),
    );
}

/// A weighted-sum value with positive weights and positive vertex values
/// is itself positive.
proof fn lemma_sign_transfer(fq: int, fa: int, fb: int, fc: int, l1: int, l2: int, l3: int, aa: int)
    by (nonlinear_arith)
    requires
        fq * aa == fa * l1 + fb * l2 + fc * l3,
        l1 * aa > 0,
        l2 * aa > 0,
        l3 * aa > 0,
        fa > 0,
        fb > 0,
        fc > 0,
    ensures
        fq > 0,
{
}

/// A weighted-sum value with positive weights and non-positive vertex
/// values is itself non-positive.
proof fn lemma_nonpos_transfer(fq: int, fa: int, fb: int, fc: int, l1: int, l2: int, l3: int, aa: int)
    by (nonlinear_arith)
    requires
        fq * aa == fa * l1 + fb * l2 + fc * l3,
        l1 * aa > 0,
        l2 * aa > 0,
        l3 * aa > 0,
        fa <= 0,
        fb <= 0,
        fc <= 0,
    ensures
        fq <= 0,
{
}

/// A point strictly inside a triangle lies strictly on the positive side
/// of any line that has all three vertices strictly on its positive side.
proof fn lemma_inside_on_side(t: Triangle, p: Vec2, u: Vec2, v: Vec2)
    requires
        strictly_inside(p, t),
        cross(u, v, t.a) > 0,
        cross(u, v, t.b) > 0,
        cross(u, v, t.c) > 0,
    ensures
        cross(u, v, p) > 0,
{
    let aa = cross(t.a, t.b, t.c);
    let l1 = cross(p, t.b, t.c);
    let l2 = cross(t.a, p, t.c);
    let l3 = cross(t.a, t.b, p);
    lemma_cross_cyclic(p, t.b, t.c);
    lemma_cross_cyclic(t.a, t.b, t.c);
    lemma_cross_cyclic(t.b, t.c, t.a);
    lemma_cross_cyclic(t.a, p, t.c);
    lemma_cross_cyclic(p, t.c, t.a);
    let al = u.y - v.y;
    let be = v.x - u.x;
    let ga = u.x * v.y - u.y * v.x;
    lemma_cross_is_affine(u, v, t.a);
    lemma_cross_is_affine(u, v, t.b);
    lemma_cross_is_affine(u, v, t.c);
    lemma_cross_is_affine(u, v, p);
    lemma_affine_interpolation(al, be, ga, t.a, t.b, t.c, p);
    lemma_sign_transfer(
        cross(u, v, p),
        cross(u, v, t.a),
        cross(u, v, t.b),
        cross(u, v, t.c),
        l1,
        l2,
        l3,
        aa,
    );
}

/// Mirror image of [`lemma_inside_on_side`] for the negative side.
proof fn lemma_inside_on_side_neg(t: Triangle, p: Vec2, u: Vec2, v: Vec2)
    requires
        strictly_inside(p, t),
        cross(u, v, t.a) < 0,
        cross(u, v, t.b) < 0,
        cross(u, v, t.c) < 0,
    ensures
        cross(u, v, p) < 0,
{
    lemma_cross_reverse(u, v, t.a);
    lemma_cross_reverse(u, v, t.b);
    lemma_cross_reverse(u, v, t.c);
    lemma_cross_reverse(u, v, p);
    lemma_inside_on_side(t, p, v, u);
}

/// A point strictly inside a triangle lies inside its bounding box.
proof fn lemma_inside_in_bbox(t: Triangle, p: Vec2)
    requires
        strictly_inside(p, t),
    ensures
        tri_min_x(t) <= p.x <= tri_max_x(t),
        tri_min_y(t) <= p.y <= tri_max_y(t),
{
    let aa = cross(t.a, t.b, t.c);
    let l1 = cross(p, t.b, t.c);
    let l2 = cross(t.a, p, t.c);
    let l3 = cross(t.a, t.b, p);
    lemma_cross_cyclic(p, t.b, t.c);
    lemma_cross_cyclic(t.a, t.b, t.c);
    lemma_cross_cyclic(t.b, t.c, t.a);
    lemma_cross_cyclic(t.a, p, t.c);
    lemma_cross_cyclic(p, t.c, t.a);
    lemma_bound_one_axis(t, p, l1, l2, l3, aa);
}

/// Helper for [`lemma_inside_in_bbox`]: transfers the bounding-box bounds
/// through the interpolation identity on each axis in turn.
proof fn lemma_bound_one_axis(t: Triangle, p: Vec2, l1: int, l2: int, l3: int, aa: int)
    requires
        l1 == cross(p, t.b, t.c),
        l2 == cross(t.a, p, t.c),
        l3 == cross(t.a, t.b, p),
        aa == cross(t.a, t.b, t.c),
        l1 * aa > 0,
        l2 * aa > 0,
        l3 * aa > 0,
    ensures
        tri_min_x(t) <= p.x <= tri_max_x(t),
        tri_min_y(t) <= p.y <= tri_max_y(t),
{
    // f(q) = al*q.x + be*q.y + ga for the four functionals comparing a
    // coordinate of q with an edge of the box.
    let hix = tri_max_x(t);
    lemma_affine_interpolation(1, 0, -hix, t.a, t.b, t.c, p);
    lemma_nonpos_transfer(p.x - hix, t.a.x - hix, t.b.x - hix, t.c.x - hix, l1, l2, l3, aa);
    let lox = tri_min_x(t);
    lemma_affine_interpolation(-1, 0, lox, t.a, t.b, t.c, p);
    lemma_nonpos_transfer(lox - p.x, lox - t.a.x, lox - t.b.x, lox - t.c.x, l1, l2, l3, aa);
    let hiy = tri_max_y(t);
    lemma_affine_interpolation(0, 1, -hiy, t.a, t.b, t.c, p);
    lemma_nonpos_transfer(p.y - hiy, t.a.y - hiy, t.b.y - hiy, t.c.y - hiy, l1, l2, l3, aa);
    let loy = tri_min_y(t);
    lemma_affine_interpolation(0, -1, loy, t.a, t.b, t.c, p);
    lemma_nonpos_transfer(loy - p.y, loy - t.a.y, loy - t.b.y, loy - t.c.y, l1, l2, l3, aa);
}

/// No directed edge of the triangle that `p` is a vertex of separates it
/// from a triangle holding `p` strictly inside.
proof fn lemma_edge_of_own_not_separating(t1: Triangle, p: Vec2, u: Vec2, v: Vec2, w: Vec2)
    requires
        strictly_inside(p, t1),
        p == u || p == v || p == w,
    ensures
        !edge_separates(u, v, w, t1),
{
    if edge_separates(u, v, w, t1) {
        assert(cross(u, v, u) == 0) by (nonlinear_arith);
        assert(cross(u, v, v) == 0) by (nonlinear_arith);
        if cross(u, v, t1.a) > 0 {
            lemma_inside_on_side(t1, p, u, v);
        } else {
            lemma_inside_on_side_neg(t1, p, u, v);
        }
    }
}

/// Law: triangle collision is symmetric in its two arguments.
pub proof fn lemma_collision_symmetric(t1: Triangle, t2: Triangle)
    ensures
        spec_triangles_colliding(t1, t2) == spec_triangles_colliding(t2, t1),
{
}

/// Law: triangles whose bounding boxes do not meet never collide.
pub proof fn lemma_bbox_separation(t1: Triangle, t2: Triangle)
    requires
        !bboxes_overlap(t1, t2),
    ensures
        !spec_triangles_colliding(t1, t2),
{
}

/// Law: if some vertex of `t2` lies strictly inside `t1`, the two
/// triangles collide.
pub proof fn lemma_containment_implies_collision(t1: Triangle, t2: Triangle)
    requires
        strictly_inside(t2.a, t1) || strictly_inside(t2.b, t1) || strictly_inside(t2.c, t1),
    ensures
        spec_triangles_colliding(t1, t2),
{
    if strictly_inside(t2.a, t1) {
        lemma_vertex_inside_collides(t1, t2, t2.a);
    } else if strictly_inside(t2.b, t1) {
        lemma_vertex_inside_collides(t1, t2, t2.b);
    } else {
        lemma_vertex_inside_collides(t1, t2, t2.c);
    }
}

/// Core of the containment law, for one vertex `p` of `t2` strictly
/// inside `t1`.
proof fn lemma_vertex_inside_collides(t1: Triangle, t2: Triangle, p: Vec2)
    requires
        strictly_inside(p, t1),
        p == t2.a || p == t2.b || p == t2.c,
    ensures
        spec_triangles_colliding(t1, t2),
{
    lemma_inside_in_bbox(t1, p);
    assert(bboxes_overlap(t1, t2));
    // Edges of t1 cannot separate: p sits strictly on the same side as the
    // opposite vertex of each edge, yet is a vertex of t2.
    lemma_product_sign(cross(t1.a, t1.b, p), cross(t1.a, t1.b, t1.c));
    lemma_product_sign(cross(t1.b, t1.c, p), cross(t1.b, t1.c, t1.a));
    lemma_product_sign(cross(t1.c, t1.a, p), cross(t1.c, t1.a, t1.b));
    assert(!edge_separates(t1.a, t1.b, t1.c, t2));
    assert(!edge_separates(t1.b, t1.c, t1.a, t2));
    assert(!edge_separates(t1.c, t1.a, t1.b, t2));
    // Edges of t2 cannot separate: p would have to lie strictly on the
    // far side of an edge of its own triangle.
    lemma_edge_of_own_not_separating(t1, p, t2.a, t2.b, t2.c);
    lemma_edge_of_own_not_separating(t1, p, t2.b, t2.c, t2.a);
    lemma_edge_of_own_not_separating(t1, p, t2.c, t2.a, t2.b);
}

/// A product of two integers is negative exactly when the factors have
/// opposite nonzero signs.
proof fn lemma_product_neg(x: int, y: int)
    by (nonlinear_arith)
    ensures
        (x * y < 0) == ((x > 0 && y < 0) || (x < 0 && y > 0)),
{
}

/// A separating edge puts any point that is strictly inside the other
/// triangle strictly on the far side from its own opposite vertex.
proof fn lemma_separating_edge_excludes(u: Vec2, v: Vec2, w: Vec2, tother: Triangle, p: Vec2)
    requires
        edge_separates(u, v, w, tother),
        strictly_inside(p, tother),
    ensures
        cross(u, v, p) * cross(u, v, w) < 0,
{
    lemma_product_neg(cross(u, v, p), cross(u, v, w));
    if cross(u, v, tother.a) > 0 {
        lemma_inside_on_side(tother, p, u, v);
    } else {
        lemma_inside_on_side_neg(tother, p, u, v);
    }
}

/// Law: a report of no collision is sound.  When the triangles are
/// reported as non-colliding, no point lies strictly inside both.
pub proof fn lemma_no_collision_no_common_interior(t1: Triangle, t2: Triangle, p: Vec2)
    requires
        !spec_triangles_colliding(t1, t2),
    ensures
        !(strictly_inside(p, t1) && strictly_inside(p, t2)),
{
    if strictly_inside(p, t1) && strictly_inside(p, t2) {
        if !bboxes_overlap(t1, t2) {
            lemma_inside_in_bbox(t1, p);
            lemma_inside_in_bbox(t2, p);
        } else if edge_separates(t1.a, t1.b, t1.c, t2) {
            lemma_separating_edge_excludes(t1.a, t1.b, t1.c, t2, p);
        } else if edge_separates(t1.b, t1.c, t1.a, t2) {
            lemma_separating_edge_excludes(t1.b, t1.c, t1.a, t2, p);
        } else if edge_separates(t1.c, t1.a, t1.b, t2) {
            lemma_separating_edge_excludes(t1.c, t1.a, t1.b, t2, p);
        } else if edge_separates(t2.a, t2.b, t2.c, t1) {
            lemma_separating_edge_excludes(t2.a, t2.b, t2.c, t1, p);
        } else if edge_separates(t2.b, t2.c, t2.a, t1) {
            lemma_separating_edge_excludes(t2.b, t2.c, t2.a, t1, p);
        } else {
            lemma_separating_edge_excludes(t2.c, t2.a, t2.b, t1, p);
        }
    }
}

/// Cross product of `b - a` with `p - a`, computed exactly in `i128`.
fn cross_exec(a: Vec2, b: Vec2, p: Vec2) -> (r: i128)
    requires
        pt_in_range(a),
        pt_in_range(b),
        pt_in_range(p),
    ensures
        r == cross(a, b, p),
{
    let dx1: i128 = b.x as i128 - a.x as i128;
    let dy1: i128 = b.y as i128 - a.y as i128;
    let dx2: i128 = p.x as i128 - a.x as i128;
    let dy2: i128 = p.y as i128 - a.y as i128;
    assert(-0x4000_0000_0000_0000_0000_0000_0000_000
        <= dx1 * dy2 <= 0x4000_0000_0000_0000_0000_0000_0000_000
        && -0x4000_0000_0000_0000_0000_0000_0000_000
        <= dy1 * dx2 <= 0x4000_0000_0000_0000_0000_0000_0000_000) by (nonlinear_arith)
        requires
            -0x2000_0000_0000_0000 <= dx1 <= 0x2000_0000_0000_0000,
            -0x2000_0000_0000_0000 <= dy1 <= 0x2000_0000_0000_0000,
            -0x2000_0000_0000_0000 <= dx2 <= 0x2000_0000_0000_0000,
            -0x2000_0000_0000_0000 <= dy2 <= 0x2000_0000_0000_0000;
    dx1 * dy2 - dy1 * dx2
}

/// Smallest of three `i64` values.
fn min3_exec(a: i64, b: i64, c: i64) -> (r: i64)
    ensures
        r == min3(a as int, b as int, c as int),
{
    if a <= b && a <= c {
        a
    } else if b <= c {
        b
    } else {
        c
    }
}

/// Largest of three `i64` values.
fn max3_exec(a: i64, b: i64, c: i64) -> (r: i64)
    ensures
        r == max3(a as int, b as int, c as int),
{
    if a >= b && a >= c {
        a
    } else if b >= c {
        b
    } else {
        c
    }
}

/// Whether the directed edge `(a, b)` with opposite vertex `c` separates
/// its triangle from `other`.
fn edge_check(a: Vec2, b: Vec2, c: Vec2, other: &Triangle) -> (r: bool)
    requires
        pt_in_range(a),
        pt_in_range(b),
        pt_in_range(c),
        tri_in_range(*other),
    ensures
        r == edge_separates(a, b, c, *other),
{
    let s0 = cross_exec(a, b, other.a);
    let s1 = cross_exec(a, b, other.b);
    let s2 = cross_exec(a, b, other.c);
    let s3 = cross_exec(a, b, c);
    (s0 > 0 && s1 > 0 && s2 > 0 && s3 < 0) || (s0 < 0 && s1 < 0 && s2 < 0 && s3 > 0)
}

/// Determine whether two triangles overlap, boundary contact included.
///
/// The result is exactly [`spec_triangles_colliding`]: triangles whose
/// bounding boxes do not meet never collide, and otherwise the six-edge
/// separating-axis search decides.
pub fn are_triangles_colliding(tri1: &Triangle, tri2: &Triangle) -> (r: bool)
    requires
        tri_in_range(*tri1),
        tri_in_range(*tri2),
    ensures
        r == spec_triangles_colliding(*tri1, *tri2),
{
    let min_x1 = min3_exec(tri1.a.x, tri1.b.x, tri1.c.x);
    let max_x1 = max3_exec(tri1.a.x, tri1.b.x, tri1.c.x);
    let min_y1 = min3_exec(tri1.a.y, tri1.b.y, tri1.c.y);
    let max_y1 = max3_exec(tri1.a.y, tri1.b.y, tri1.c.y);
    let min_x2 = min3_exec(tri2.a.x, tri2.b.x, tri2.c.x);
    let max_x2 = max3_exec(tri2.a.x, tri2.b.x, tri2.c.x);
    let min_y2 = min3_exec(tri2.a.y, tri2.b.y, tri2.c.y);
    let max_y2 = max3_exec(tri2.a.y, tri2.b.y, tri2.c.y);
    if max_x1 < min_x2 || max_x2 < min_x1 || max_y1 < min_y2 || max_y2 < min_y1 {
        return false;
    }
    if edge_check(tri1.a, tri1.b, tri1.c, tri2) {
        return false;
    }
    if edge_check(tri1.b, tri1.c, tri1.a, tri2) {
        return false;
    }
    if edge_check(tri1.c, tri1.a, tri1.b, tri2) {
        return false;
    }
    if edge_check(tri2.a, tri2.b, tri2.c, tri1) {
        return false;
    }
    if edge_check(tri2.b, tri2.c, tri2.a, tri1) {
        return false;
    }
    if edge_check(tri2.c, tri2.a, tri2.b, tri1) {
        return false;
    }
    true
}

/// Squared Euclidean distance between two points.
pub open spec fn sq_dist(p: Vec2, q: Vec2) -> int {
    (p.x - q.x) * (p.x - q.x) + (p.y - q.y) * (p.y - q.y)
}

/// Dot product of the direction from `a` to `b` with the vector from `a`
/// to `p`; negative exactly when `p` projects outside the segment past `a`.
pub open spec fn seg_dot(a: Vec2, b: Vec2, p: Vec2) -> int {
    (b.x - a.x) * (p.x - a.x) + (b.y - a.y) * (p.y - a.y)
}

/// Smaller of two integers.
pub open spec fn min2(a: int, b: int) -> int {
    if a <= b {
        a
    } else {
        b
    }
}

/// The point lies inside the world-coordinate range the distance query
/// accepts.
pub open spec fn pt_in_world(p: Vec2) -> bool {
    &&& -COORD_LIMIT <= p.x <= COORD_LIMIT
    &&& -COORD_LIMIT <= p.y <= COORD_LIMIT
}

/// Product of two bounded differences of world coordinates.
fn mul_d(x: i128, y: i128) -> (r: i128)
    requires
        -2_000_000_000 <= x <= 2_000_000_000,
        -2_000_000_000 <= y <= 2_000_000_000,
    ensures
        r == x * y,
        -4_000_000_000_000_000_000 <= r <= 4_000_000_000_000_000_000,
{
    assert(-4_000_000_000_000_000_000 <= x * y <= 4_000_000_000_000_000_000) by (nonlinear_arith)
        requires
            -2_000_000_000 <= x <= 2_000_000_000,
            -2_000_000_000 <= y <= 2_000_000_000;
    x * y
}

/// Floor of the square root of a 128-bit integer, by bisection.
fn isqrt_u128(x: u128) -> (r: u128)
    ensures
        r * r <= x,
        x < (r + 1) * (r + 1),
{
    let mut lo: u128 = 0;
    let mut hi: u128 = 0x1_0000_0000_0000_0000;
    assert(x < hi * hi) by (nonlinear_arith)
        requires
            hi == 0x1_0000_0000_0000_0000u128,
            x <= u128::MAX;
    while hi - lo > 1
        invariant
            lo < hi,
            hi <= 0x1_0000_0000_0000_0000,
            lo * lo <= x,
            x < hi * hi,
        decreases hi - lo,
    {
        let mid = lo + (hi - lo) / 2;
        assert(mid * mid < 0x1_0000_0000_0000_0000_0000_0000_0000_0000) by (nonlinear_arith)
            requires
                mid < 0x1_0000_0000_0000_0000u128;
        if mid * mid <= x {
            lo = mid;
        } else {
            hi = mid;
        }
    }
    lo
}

/// A square root of a value below `9 * 10^18` is below `3 * 10^9`.
proof fn lemma_small_root(r: int, m: int)
    by (nonlinear_arith)
    requires
        r >= 0,
        r * r <= m,
        m <= 8_000_000_000_000_000_000,
    ensures
        r <= 3_000_000_000,
{
}

/// A floored quotient is no larger than its non-negative dividend.
proof fn lemma_quot_le(c: int, l: int, q: int, rem: int)
    by (nonlinear_arith)
    requires
        c == l * q + rem,
        0 <= rem < l,
        q >= 0,
        l >= 1,
    ensures
        q <= c,
{
}

/// Bridges the floor of a square root of a floored quotient back to the
/// exact rational bound: `r^2 <= c/l < (r+1)^2` scaled through by `l`.
proof fn lemma_div_transfer(r: int, q: int, c: int, l: int)
    by (nonlinear_arith)
    requires
        r >= 0,
        l > 0,
        c >= 0,
        r * r <= q,
        q < (r + 1) * (r + 1),
        c == l * q + (c % l),
        0 <= c % l < l,
    ensures
        r * r * l <= c,
        c < (r + 1) * (r + 1) * l,
{
}

/// Distance from a point to a segment, rounded down to a whole number of
/// world units.
///
/// When the point projects outside the segment span the result is the
/// rounded distance to the nearer endpoint; when the segment is a single
/// point the result is the rounded distance to that point; otherwise the
/// result `r` is the rounded perpendicular distance to the segment's
/// line, pinned exactly by `r^2 * len2 <= cross^2 < (r+1)^2 * len2`.
pub fn distance_point_to_segment(point: Vec2, segment: (Vec2, Vec2)) -> (r: i64)
    requires
        pt_in_world(point),
        pt_in_world(segment.0),
        pt_in_world(segment.1),
    ensures
        r >= 0,
        (seg_dot(segment.0, segment.1, point) < 0 || seg_dot(segment.1, segment.0, point) < 0)
            ==> r * r <= min2(sq_dist(point, segment.0), sq_dist(point, segment.1))
                && min2(sq_dist(point, segment.0), sq_dist(point, segment.1)) < (r + 1) * (r + 1),
        (seg_dot(segment.0, segment.1, point) >= 0 && seg_dot(segment.1, segment.0, point) >= 0
            && sq_dist(segment.0, segment.1) == 0)
            ==> r * r <= sq_dist(point, segment.0)
                && sq_dist(point, segment.0) < (r + 1) * (r + 1),
        (seg_dot(segment.0, segment.1, point) >= 0 && seg_dot(segment.1, segment.0, point) >= 0
            && sq_dist(segment.0, segment.1) > 0)
            ==> r * r * sq_dist(segment.0, segment.1)
                    <= cross(segment.0, segment.1, point) * cross(segment.0, segment.1, point)
                && cross(segment.0, segment.1, point) * cross(segment.0, segment.1, point)
                    < (r + 1) * (r + 1) * sq_dist(segment.0, segment.1),
{
    let a = segment.0;
    let b = segment.1;
    let e1x: i128 = b.x as i128 - a.x as i128;
    let e1y: i128 = b.y as i128 - a.y as i128;
    let v1x: i128 = point.x as i128 - a.x as i128;
    let v1y: i128 = point.y as i128 - a.y as i128;
    let v2x: i128 = point.x as i128 - b.x as i128;
    let v2y: i128 = point.y as i128 - b.y as i128;
    let d1 = mul_d(e1x, v1x) + mul_d(e1y, v1y);
    let d2 = mul_d(-e1x, v2x) + mul_d(-e1y, v2y);
    let da2 = mul_d(v1x, v1x) + mul_d(v1y, v1y);
    let db2 = mul_d(v2x, v2x) + mul_d(v2y, v2y);
    assert(da2 >= 0 && db2 >= 0) by (nonlinear_arith)
        requires
            da2 == v1x * v1x + v1y * v1y,
            db2 == v2x * v2x + v2y * v2y;
    assert(d1 == seg_dot(a, b, point));
    assert(d2 == seg_dot(b, a, point));
    assert(da2 == sq_dist(point, a));
    assert(db2 == sq_dist(point, b));
    if d1 < 0 || d2 < 0 {
        // Shortest distance is to one of the endpoints.
        let m = if da2 < db2 {
            da2
        } else {
            db2
        };
        let rr = isqrt_u128(m as u128);
        proof {
            lemma_small_root(rr as int, m as int);
        }
        rr as i64
    } else {
        let len2 = mul_d(e1x, e1x) + mul_d(e1y, e1y);
        assert(len2 >= 0) by (nonlinear_arith)
            requires
                len2 == e1x * e1x + e1y * e1y;
        assert(len2 == sq_dist(a, b)) by (nonlinear_arith)
            requires
                len2 == e1x * e1x + e1y * e1y,
                e1x == b.x - a.x,
                e1y == b.y - a.y,
                sq_dist(a, b) == (a.x - b.x) * (a.x - b.x) + (a.y - b.y) * (a.y - b.y);
        if len2 == 0 {
            // Degenerate segment: distance to its single point.
            let rr = isqrt_u128(da2 as u128);
            proof {
                lemma_small_root(rr as int, da2 as int);
            }
            rr as i64
        } else {
            // Perpendicular distance to the segment's line, exactly:
            // the squared distance is cross^2 / len2.
            let cr = mul_d(e1x, v1y) - mul_d(e1y, v1x);
            assert(cr == cross(a, b, point));
            assert(0 <= cr * cr
                <= 64_000_000_000_000_000_000_000_000_000_000_000_000) by (nonlinear_arith)
                requires
                    -8_000_000_000_000_000_000 <= cr <= 8_000_000_000_000_000_000;
            let c2 = cr * cr;
            let q = (c2 as u128) / (len2 as u128);
            let rr = isqrt_u128(q);
            proof {
                lemma_fundamental_div_mod(c2 as int, len2 as int);
                lemma_mod_bound(c2 as int, len2 as int);
                lemma_quot_le(c2 as int, len2 as int, q as int, (c2 as int) % (len2 as int));
                lemma_small_root_wide(rr as int, q as int);
                lemma_div_transfer(rr as int, q as int, c2 as int, len2 as int);
            }
            rr as i64
        }
    }
}

/// A square root of a value below `6.4 * 10^37` is below `8 * 10^18`.
proof fn lemma_small_root_wide(r: int, m: int)
    by (nonlinear_arith)
    requires
        r >= 0,
        r * r <= m,
        m <= 64_000_000_000_000_000_000_000_000_000_000_000_000,
    ensures
        r <= 8_000_000_000_000_000_000,
{
}

impl Triangle {
    /// The three vertices, in order.
    pub fn get_points(&self) -> (r: Vec<Vec2>)
        ensures
            r@ == seq![self.a, self.b, self.c],
    {
        let mut r: Vec<Vec2> = Vec::new();
        r.push(self.a);
        r.push(self.b);
        r.push(self.c);
        assert(r@ =~= seq![self.a, self.b, self.c]);
        r
    }

    /// The three vertex pairs that bound the triangle.
    pub fn get_edges(&self) -> (r: Vec<(Vec2, Vec2)>)
        ensures
            r@ == seq![(self.a, self.b), (self.a, self.c), (self.b, self.c)],
    {
        let mut r: Vec<(Vec2, Vec2)> = Vec::new();
        r.push((self.a, self.b));
        r.push((self.a, self.c));
        r.push((self.b, self.c));
        assert(r@ =~= seq![(self.a, self.b), (self.a, self.c), (self.b, self.c)]);
        r
    }

    /// The three rotations of the vertex list: each directed edge together
    /// with the vertex opposite to it.
    pub fn get_trips(&self) -> (r: Vec<(Vec2, Vec2, Vec2)>)
        ensures
            r@ == seq![
                (self.a, self.b, self.c),
                (self.b, self.c, self.a),
                (self.c, self.a, self.b),
            ],
    {
        let mut r: Vec<(Vec2, Vec2, Vec2)> = Vec::new();
        r.push((self.a, self.b, self.c));
        r.push((self.b, self.c, self.a));
        r.push((self.c, self.a, self.b));
        assert(r@ =~= seq![
            (self.a, self.b, self.c),
            (self.b, self.c, self.a),
            (self.c, self.a, self.b),
        ]);
        r
    }

    /// Whether this triangle collides with `triangle`.
    pub fn is_colliding_with_triangle(&self, triangle: &Triangle) -> (r: bool)
        requires
            tri_in_range(*self),
            tri_in_range(*triangle),
        ensures
            r == spec_triangles_colliding(*self, *triangle),
    {
        are_triangles_colliding(self, triangle)
    }
}

} // verus!

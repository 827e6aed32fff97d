//! Rigid-body physics: hitboxes and their bounds, rectangle overlap,
//! fixed-point rotation, gravity with a clamped time step, position
//! integration, and minimum-translation collision resolution against
//! static blocks.

use vstd::prelude::*;

use vstd::arithmetic::div_mod::{
    lemma_div_is_ordered, lemma_fundamental_div_mod, lemma_fundamental_div_mod_converse_div,
    lemma_mod_bound,
};

use crate::collisions::{tri_in_range, Triangle, Vec2};
use crate::consts::{
    COLLISION_THRESHOLD, COORD_LIMIT, GRAVITY, MAX_GRAVITY_STEP_MICROS, MAX_TICK_MICROS,
    MICROS_PER_SECOND, NOMINAL_FRAME_MICROS, ROT_ONE,
};
use crate::environment::{block_wf, Block};

verus! {

/// Velocity of a movable body, in world units per second.
#[derive(Clone, Copy, PartialEq, Eq, Structural, Debug)]
pub struct Velocity {
    pub x: i64,
    pub y: i64,
}

/// Marks a body as movable, and carries whether gravity still acts on it.
#[derive(Clone, Copy, PartialEq, Eq, Structural, Debug)]
pub struct Moveable {
    pub gravity_enabled: bool,
}

/// An axis-aligned rectangle attached to a body: a local offset from the
/// body's position, and a width and height.
#[derive(Clone, Copy, PartialEq, Eq, Structural, Debug)]
pub struct Hitbox {
    pub pos: Vec2,
    pub size: Vec2,
}

/// A movable rigid body: its hitbox, world position, velocity, and
/// movability state.
#[derive(Clone, Copy, PartialEq, Eq, Structural, Debug)]
pub struct Body {
    pub hitbox: Hitbox,
    pub pos: Vec2,
    pub vel: Velocity,
    pub moveable: Moveable,
}

/// A rotation as a fixed-point vector: `c` and `s` hold the cosine and
/// sine scaled by [`ROT_ONE`].  The contracts only require the
/// components to be bounded by one unit; supplying an actual unit
/// vector, so that rotation preserves lengths, is the caller's part.
#[derive(Clone, Copy, PartialEq, Eq, Structural, Debug)]
pub struct Rotation {
    pub c: i64,
    pub s: i64,
}

/// The point lies inside the world-coordinate range accepted for
/// spawn-time inputs: offsets, sizes and initial positions.
pub open spec fn pt_in_world(p: Vec2) -> bool {
    &&& -COORD_LIMIT <= p.x <= COORD_LIMIT
    &&& -COORD_LIMIT <= p.y <= COORD_LIMIT
}

/// The position stays inside the wider range that one simulation tick
/// can reach from the world range.
pub open spec fn pos_in_play(p: Vec2) -> bool {
    &&& -5 * COORD_LIMIT <= p.x <= 5 * COORD_LIMIT
    &&& -5 * COORD_LIMIT <= p.y <= 5 * COORD_LIMIT
}

/// The velocity components stay inside the range the resolver accepts.
pub open spec fn vel_in_play(v: Velocity) -> bool {
    &&& -2 * COORD_LIMIT <= v.x <= 2 * COORD_LIMIT
    &&& -2 * COORD_LIMIT <= v.y <= 2 * COORD_LIMIT
}

/// The hitbox has non-negative extents and a bounded offset.
pub open spec fn hitbox_wf(h: Hitbox) -> bool {
    &&& pt_in_world(h.pos)
    &&& 0 <= h.size.x <= COORD_LIMIT
    &&& 0 <= h.size.y <= COORD_LIMIT
}

/// Both fixed-point components lie within one unit.
pub open spec fn rotation_wf(r: Rotation) -> bool {
    &&& -ROT_ONE <= r.c <= ROT_ONE
    &&& -ROT_ONE <= r.s <= ROT_ONE
}

/// Half of a non-negative length, rounded down.
pub(crate) fn half(v: i64) -> (r: i64)
    requires
        v >= 0,
    ensures
        r == v as int / 2,
{
    ((v as u64) / 2) as i64
}

/// Floor division of a 128-bit integer by a positive divisor; agrees
/// with the mathematical (Euclidean) quotient.
pub(crate) fn floor_div128(n: i128, d: i128) -> (r: i128)
    requires
        d > 0,
        -0x4000_0000_0000_0000_0000_0000_0000_000 <= n <= 0x4000_0000_0000_0000_0000_0000_0000_000,
    ensures
        r == n as int / d as int,
{
    if n >= 0 {
        let q = (n as u128) / (d as u128);
        proof {
            lemma_fundamental_div_mod(n as int, d as int);
            lemma_mod_bound(n as int, d as int);
        }
        assert(q == n as int / d as int);
        q as i128
    } else {
        let m = (-n) as u128;
        let du = d as u128;
        let q = m / du;
        let rem = m % du;
        proof {
            lemma_fundamental_div_mod(m as int, du as int);
            lemma_mod_bound(m as int, du as int);
        }
        if rem == 0 {
            proof {
                assert(n as int == (-(q as int)) * (d as int) + 0) by (nonlinear_arith)
                    requires
                        n as int == -(m as int),
                        m as int == (d as int) * (q as int) + (rem as int),
                        rem == 0u128;
                lemma_fundamental_div_mod_converse_div(n as int, d as int, -(q as int), 0);
            }
            -(q as i128)
        } else {
            proof {
                assert(n as int == (-(q as int) - 1) * (d as int) + (d as int - rem as int))
                    by (nonlinear_arith)
                    requires
                        n as int == -(m as int),
                        m as int == (d as int) * (q as int) + (rem as int);
                lemma_fundamental_div_mod_converse_div(
                    n as int,
                    d as int,
                    -(q as int) - 1,
                    d as int - rem as int,
                );
            }
            -(q as i128) - 1
        }
    }
}

/// Floor division of a bounded `i64` by a positive divisor.
pub(crate) fn floor_div(n: i64, d: i64) -> (r: i64)
    requires
        d > 0,
    ensures
        r == n as int / d as int,
{
    let q = floor_div128(n as i128, d as i128);
    proof {
        lemma_div_stays_small(n as int, d as int, q as int);
    }
    q as i64
}

/// A floored quotient lies between the numerator and zero.
proof fn lemma_div_stays_small(n: int, d: int, q: int)
    by (nonlinear_arith)
    requires
        d >= 1,
        q == n / d,
    ensures
        n >= 0 ==> 0 <= q <= n,
        n < 0 ==> n <= q <= 0,
{
}

/// Left edge of the hitbox placed at world position `t`.
pub open spec fn spec_left(h: Hitbox, t: Vec2) -> int {
    t.x + h.pos.x - h.size.x / 2
}

/// Right edge of the hitbox placed at world position `t`.
pub open spec fn spec_right(h: Hitbox, t: Vec2) -> int {
    spec_left(h, t) + h.size.x
}

/// Top edge of the hitbox placed at world position `t`.
pub open spec fn spec_top(h: Hitbox, t: Vec2) -> int {
    t.y + h.pos.y + h.size.y / 2
}

/// Bottom edge of the hitbox placed at world position `t`.
pub open spec fn spec_bot(h: Hitbox, t: Vec2) -> int {
    spec_top(h, t) - h.size.y
}

/// The `(left, right, top, bottom)` world edges of a hitbox whose owner
/// stands at `transform`.
pub fn get_bounds(hitbox: &Hitbox, transform: &Vec2) -> (r: (i64, i64, i64, i64))
    requires
        hitbox_wf(*hitbox),
        pos_in_play(*transform),
    ensures
        r.0 == spec_left(*hitbox, *transform),
        r.1 == spec_right(*hitbox, *transform),
        r.2 == spec_top(*hitbox, *transform),
        r.3 == spec_bot(*hitbox, *transform),
{
    let left = transform.x + hitbox.pos.x - half(hitbox.size.x);
    let right = left + hitbox.size.x;
    let top = transform.y + hitbox.pos.y + half(hitbox.size.y);
    let bot = top - hitbox.size.y;
    (left, right, top, bot)
}

/// The two hitboxes, placed at their owners' positions, overlap with
/// positive area (shared edges do not count).
pub open spec fn spec_are_colliding(h1: Hitbox, t1: Vec2, h2: Hitbox, t2: Vec2) -> bool {
    !(spec_bot(h1, t1) >= spec_top(h2, t2) || spec_top(h1, t1) <= spec_bot(h2, t2)
        || spec_right(h1, t1) <= spec_left(h2, t2) || spec_left(h1, t1) >= spec_right(h2, t2))
}

/// Whether the two placed hitboxes overlap with positive area.
pub fn are_colliding(h1: &Hitbox, t1: &Vec2, h2: &Hitbox, t2: &Vec2) -> (r: bool)
    requires
        hitbox_wf(*h1),
        hitbox_wf(*h2),
        pos_in_play(*t1),
        pos_in_play(*t2),
    ensures
        r == spec_are_colliding(*h1, *t1, *h2, *t2),
{
    let (left1, right1, top1, bot1) = get_bounds(h1, t1);
    let (left2, right2, top2, bot2) = get_bounds(h2, t2);
    !(bot1 >= top2 || top1 <= bot2 || right1 <= left2 || left1 >= right2)
}

/// Quotient rounded toward zero: division as it acts symmetrically on
/// a value and its negation.
pub open spec fn div_trunc(n: int, d: int) -> int {
    if n >= 0 {
        n / d
    } else {
        -((-n) / d)
    }
}

/// Truncating toward zero commutes with negation.
proof fn lemma_div_trunc_neg(n: int, d: int)
    requires
        d > 0,
    ensures
        div_trunc(-n, d) == -div_trunc(n, d),
{
    if n == 0 {
        lemma_fundamental_div_mod_converse_div(0, d, 0, 0);
    }
}

/// Truncating division of a bounded `i64` by a positive divisor.
fn trunc_div(n: i64, d: i64) -> (r: i64)
    requires
        d > 0,
        n > i64::MIN,
    ensures
        r == div_trunc(n as int, d as int),
{
    if n >= 0 {
        let q = (n as u64) / (d as u64);
        proof {
            lemma_div_stays_small(n as int, d as int, q as int);
        }
        q as i64
    } else {
        let q = ((-n) as u64) / (d as u64);
        proof {
            lemma_div_stays_small((-n) as int, d as int, q as int);
        }
        -(q as i64)
    }
}

/// The vector `v` rotated by the fixed-point rotation, each coordinate
/// rounded toward zero, so that mirroring the rotation mirrors the
/// image exactly.
pub open spec fn spec_rotate(v: Vec2, r: Rotation) -> Vec2 {
    Vec2 {
        x: div_trunc(v.x * r.c - v.y * r.s, ROT_ONE as int) as i64,
        y: div_trunc(v.x * r.s + v.y * r.c, ROT_ONE as int) as i64,
    }
}

/// Rotate a vector by a fixed-point rotation.
pub fn rotate(v: Vec2, angle: &Rotation) -> (r: Vec2)
    requires
        pt_in_world(v),
        rotation_wf(*angle),
    ensures
        r == spec_rotate(v, *angle),
        -2 * COORD_LIMIT <= r.x <= 2 * COORD_LIMIT,
        -2 * COORD_LIMIT <= r.y <= 2 * COORD_LIMIT,
{
    let xc = mul_small(v.x, angle.c);
    let ys = mul_small(v.y, angle.s);
    let xs = mul_small(v.x, angle.s);
    let yc = mul_small(v.y, angle.c);
    let nx = xc - ys;
    let ny = xs + yc;
    let rx = trunc_div(nx, ROT_ONE);
    let ry = trunc_div(ny, ROT_ONE);
    proof {
        lemma_trunc_div_in_range(nx as int, rx as int);
        lemma_trunc_div_in_range(ny as int, ry as int);
    }
    Vec2 { x: rx, y: ry }
}

/// Truncating a bounded numerator by [`ROT_ONE`] keeps the quotient
/// within twice the coordinate limit.
proof fn lemma_trunc_div_in_range(n: int, q: int)
    requires
        -2 * COORD_LIMIT * ROT_ONE <= n <= 2 * COORD_LIMIT * ROT_ONE,
        q == div_trunc(n, ROT_ONE as int),
    ensures
        -2 * COORD_LIMIT <= q <= 2 * COORD_LIMIT,
{
    lemma_fundamental_div_mod_converse_div(
        2 * COORD_LIMIT * ROT_ONE,
        ROT_ONE as int,
        2 * COORD_LIMIT,
        0,
    );
    if n >= 0 {
        lemma_div_stays_small(n, ROT_ONE as int, n / (ROT_ONE as int));
        lemma_div_is_ordered(n, 2 * COORD_LIMIT * ROT_ONE, ROT_ONE as int);
    } else {
        lemma_div_stays_small(-n, ROT_ONE as int, (-n) / (ROT_ONE as int));
        lemma_div_is_ordered(-n, 2 * COORD_LIMIT * ROT_ONE, ROT_ONE as int);
    }
}

/// A coordinate times a fixed-point rotation component.
fn mul_small(x: i64, y: i64) -> (r: i64)
    requires
        -COORD_LIMIT <= x <= COORD_LIMIT,
        -ROT_ONE <= y <= ROT_ONE,
    ensures
        r == x * y,
        -COORD_LIMIT * ROT_ONE <= r <= COORD_LIMIT * ROT_ONE,
{
    assert(-COORD_LIMIT * ROT_ONE <= x * y <= COORD_LIMIT * ROT_ONE) by (nonlinear_arith)
        requires
            -COORD_LIMIT <= x <= COORD_LIMIT,
            -ROT_ONE <= y <= ROT_ONE,
            COORD_LIMIT == 1_000_000_000i64,
            ROT_ONE == 65536i64;
    x * y
}

/// Negating the right factor negates a product.
proof fn lemma_mul_neg(x: int, y: int)
    by (nonlinear_arith)
    ensures
        x * (-y) == -(x * y),
{
}

/// Negating the left factor negates a product.
proof fn lemma_neg_mul(x: int, y: int)
    by (nonlinear_arith)
    ensures
        (-x) * y == -(x * y),
{
}

/// Mirroring a rotation (negating its cosine) sends a point to the
/// exact reflection, across the vertical axis, of where the unmirrored
/// rotation sends the vertically flipped point: the two x numerators
/// are each other's negation, and rounding toward zero commutes with
/// negation.
pub proof fn lemma_mirror_rotation(v: Vec2, rot: Rotation)
    requires
        pt_in_world(v),
        rotation_wf(rot),
    ensures
        ({
            let m = spec_rotate(v, Rotation { c: (-rot.c) as i64, s: rot.s });
            let u = spec_rotate(Vec2 { x: v.x, y: (-v.y) as i64 }, rot);
            &&& m.y == u.y
            &&& m.x == -u.x
            &&& -2 * COORD_LIMIT <= m.x <= 2 * COORD_LIMIT
            &&& -2 * COORD_LIMIT <= m.y <= 2 * COORD_LIMIT
        }),
{
    let k = ROT_ONE as int;
    let n = v.x * rot.c + v.y * rot.s;
    let w = v.x * rot.s - v.y * rot.c;
    lemma_mul_neg(v.x as int, rot.c as int);
    lemma_mul_neg(v.y as int, rot.c as int);
    lemma_neg_mul(v.y as int, rot.s as int);
    lemma_neg_mul(v.y as int, rot.c as int);
    assert(((-rot.c) as i64) == -rot.c && ((-v.y) as i64) == -v.y);
    assert(v.x * ((-rot.c) as i64) - v.y * rot.s == -n);
    assert(v.x * rot.s + v.y * ((-rot.c) as i64) == w);
    assert(v.x * rot.c - ((-v.y) as i64) * rot.s == n);
    assert(v.x * rot.s + ((-v.y) as i64) * rot.c == w);
    assert(-2 * COORD_LIMIT * ROT_ONE <= n <= 2 * COORD_LIMIT * ROT_ONE && -2 * COORD_LIMIT
        * ROT_ONE <= w <= 2 * COORD_LIMIT * ROT_ONE) by (nonlinear_arith)
        requires
            n == v.x * rot.c + v.y * rot.s,
            w == v.x * rot.s - v.y * rot.c,
            -COORD_LIMIT <= v.x <= COORD_LIMIT,
            -COORD_LIMIT <= v.y <= COORD_LIMIT,
            -ROT_ONE <= rot.c <= ROT_ONE,
            -ROT_ONE <= rot.s <= ROT_ONE,
            COORD_LIMIT == 1_000_000_000i64,
            ROT_ONE == 65536i64;
    lemma_div_trunc_neg(n, k);
    lemma_trunc_div_in_range(n, div_trunc(n, k));
    lemma_trunc_div_in_range(-n, div_trunc(-n, k));
    lemma_trunc_div_in_range(w, div_trunc(w, k));
}


/// Velocity damping on a bounce: reversed and scaled by the restitution
/// factor 2/5, rounded down.
pub open spec fn spec_damp(v: i64) -> i64 {
    ((-2 * v) / 5) as i64
}

/// Velocity components smaller in magnitude than the snap threshold
/// become exactly zero.
pub open spec fn spec_snap(v: i64) -> i64 {
    if -COLLISION_THRESHOLD < v < COLLISION_THRESHOLD {
        0
    } else {
        v
    }
}

/// The damped velocity keeps the component's bound and range.
proof fn lemma_damp_props(v: int)
    by (nonlinear_arith)
    requires
        -2_000_000_000_000 <= v <= 2_000_000_000_000,
    ensures
        0 <= v ==> -v <= (-2 * v) / 5 <= 0,
        v < 0 ==> 0 <= (-2 * v) / 5 <= -v,
{
}

/// The position and velocity after resolving one body-block overlap:
/// the smallest of the four single-axis pushes (ties broken in the order
/// left, right, up, down) moves the body out of the block, the velocity
/// component pointing into the block is reversed and damped, and
/// components below the snap threshold become zero.
pub open spec fn spec_resolve(h1: Hitbox, t1: Vec2, v1: Velocity, h2: Hitbox, t2: Vec2) -> (
    Vec2,
    Velocity,
) {
    let ml = spec_left(h1, t1);
    let mr = spec_right(h1, t1);
    let mt = spec_top(h1, t1);
    let mb = spec_bot(h1, t1);
    let il = spec_left(h2, t2);
    let ir = spec_right(h2, t2);
    let it = spec_top(h2, t2);
    let ib = spec_bot(h2, t2);
    let inf = i64::MAX as int;
    let left_resolve = if mr > il {
        mr - il
    } else {
        inf
    };
    let right_resolve = if ml < ir {
        ir - ml
    } else {
        inf
    };
    let top_resolve = if mb < it {
        it - mb
    } else {
        inf
    };
    let bot_resolve = if mt > ib {
        mt - ib
    } else {
        inf
    };
    let m1 = left_resolve;
    let m2 = if right_resolve < m1 {
        right_resolve
    } else {
        m1
    };
    let m3 = if top_resolve < m2 {
        top_resolve
    } else {
        m2
    };
    let min_resolve = if bot_resolve < m3 {
        bot_resolve
    } else {
        m3
    };
    let tv = if left_resolve <= min_resolve {
        (
            Vec2 { x: (t1.x - left_resolve) as i64, y: t1.y },
            if v1.x > 0 {
                Velocity { x: spec_damp(v1.x), y: v1.y }
            } else {
                v1
            },
        )
    } else if right_resolve <= min_resolve {
        (
            Vec2 { x: (t1.x + right_resolve) as i64, y: t1.y },
            if v1.x < 0 {
                Velocity { x: spec_damp(v1.x), y: v1.y }
            } else {
                v1
            },
        )
    } else if top_resolve <= min_resolve {
        (
            Vec2 { x: t1.x, y: (t1.y + top_resolve) as i64 },
            if v1.y < 0 {
                Velocity { x: v1.x, y: spec_damp(v1.y) }
            } else {
                v1
            },
        )
    } else {
        (
            Vec2 { x: t1.x, y: (t1.y - bot_resolve) as i64 },
            if v1.y > 0 {
                Velocity { x: v1.x, y: spec_damp(v1.y) }
            } else {
                v1
            },
        )
    };
    (tv.0, Velocity { x: spec_snap(tv.1.x), y: spec_snap(tv.1.y) })
}

/// Push an overlapping movable body out of a static block along the
/// cheapest single axis, damping the velocity component that pointed
/// into the block.  The result is exactly [`spec_resolve`], and the body
/// no longer overlaps the block.
pub fn resolve_move_immove_collision(
    h1: &Hitbox,
    t1: &mut Vec2,
    v1: &mut Velocity,
    h2: &Hitbox,
    t2: &Vec2,
)
    requires
        hitbox_wf(*h1),
        hitbox_wf(*h2),
        pos_in_play(*old(t1)),
        pt_in_world(*t2),
        vel_in_play(*old(v1)),
        spec_are_colliding(*h1, *old(t1), *h2, *t2),
    ensures
        *final(t1) == spec_resolve(*h1, *old(t1), *old(v1), *h2, *t2).0,
        *final(v1) == spec_resolve(*h1, *old(t1), *old(v1), *h2, *t2).1,
        pos_in_play(*final(t1)),
        vel_in_play(*final(v1)),
        !spec_are_colliding(*h1, *final(t1), *h2, *t2),
{
    let (ml, mr, mt, mb) = get_bounds(h1, t1);
    let (il, ir, it, ib) = get_bounds(h2, t2);
    let left_resolve = if mr > il {
        mr - il
    } else {
        i64::MAX
    };
    let mut min_resolve = left_resolve;
    let right_resolve = if ml < ir {
        ir - ml
    } else {
        i64::MAX
    };
    if right_resolve < min_resolve {
        min_resolve = right_resolve;
    }
    let top_resolve = if mb < it {
        it - mb
    } else {
        i64::MAX
    };
    if top_resolve < min_resolve {
        min_resolve = top_resolve;
    }
    let bot_resolve = if mt > ib {
        mt - ib
    } else {
        i64::MAX
    };
    if bot_resolve < min_resolve {
        min_resolve = bot_resolve;
    }
    proof {
        lemma_damp_props(old(v1).x as int);
        lemma_damp_props(old(v1).y as int);
    }
    if left_resolve <= min_resolve {
        t1.x = t1.x - left_resolve;
        if v1.x > 0 {
            v1.x = floor_div(-2 * v1.x, 5);
        }
    } else if right_resolve <= min_resolve {
        t1.x = t1.x + right_resolve;
        if v1.x < 0 {
            v1.x = floor_div(-2 * v1.x, 5);
        }
    } else if top_resolve <= min_resolve {
        t1.y = t1.y + top_resolve;
        if v1.y < 0 {
            v1.y = floor_div(-2 * v1.y, 5);
        }
    } else {
        t1.y = t1.y - bot_resolve;
        if v1.y > 0 {
            v1.y = floor_div(-2 * v1.y, 5);
        }
    }
    if v1.x > -COLLISION_THRESHOLD && v1.x < COLLISION_THRESHOLD {
        v1.x = 0;
    }
    if v1.y > -COLLISION_THRESHOLD && v1.y < COLLISION_THRESHOLD {
        v1.y = 0;
    }
}

/// Gravity's velocity change for one tick: the acceleration scaled by
/// the clamped time step.  A step longer than three nominal frames
/// (50 000 us exactly) counts as three, so a stalled frame cannot
/// impart a larger impulse; the clamped impulse is exactly
/// 980 * 0.05 = 49 units per second.
pub open spec fn spec_gravity_delta(dt_micros: u64) -> int {
    let dtc: int = if dt_micros > MAX_GRAVITY_STEP_MICROS {
        MAX_GRAVITY_STEP_MICROS as int
    } else {
        dt_micros as int
    };
    (GRAVITY * dtc) / (MICROS_PER_SECOND as int)
}

/// The velocity of one body after gravity acts for one tick.
pub open spec fn spec_gravity_vel(v: Velocity, m: Moveable, dt_micros: u64) -> Velocity {
    if m.gravity_enabled {
        Velocity { x: v.x, y: (v.y - spec_gravity_delta(dt_micros)) as i64 }
    } else {
        v
    }
}

/// Law: the gravity impulse is clamped.  A tick of ten nominal frames
/// applies exactly the impulse of the clamp, three nominal frames, and
/// no tick ever applies more.
pub proof fn lemma_gravity_clamp(dt_micros: u64)
    ensures
        spec_gravity_delta(((10 * NOMINAL_FRAME_MICROS) as u64)) == spec_gravity_delta(
            MAX_GRAVITY_STEP_MICROS,
        ),
        dt_micros >= MAX_GRAVITY_STEP_MICROS ==> spec_gravity_delta(dt_micros)
            == spec_gravity_delta(MAX_GRAVITY_STEP_MICROS),
        0 <= spec_gravity_delta(dt_micros) <= spec_gravity_delta(MAX_GRAVITY_STEP_MICROS),
        spec_gravity_delta(MAX_GRAVITY_STEP_MICROS) == 49,
{
    let dtc: int = if dt_micros > MAX_GRAVITY_STEP_MICROS {
        MAX_GRAVITY_STEP_MICROS as int
    } else {
        dt_micros as int
    };
    assert(0 <= GRAVITY * dtc <= GRAVITY * (MAX_GRAVITY_STEP_MICROS as int)) by (nonlinear_arith)
        requires
            0 <= dtc <= MAX_GRAVITY_STEP_MICROS as int,
            GRAVITY == 980i64,
            MAX_GRAVITY_STEP_MICROS == 50000u64;
    assert((GRAVITY * dtc) / (MICROS_PER_SECOND as int)
        <= (GRAVITY * (MAX_GRAVITY_STEP_MICROS as int)) / (MICROS_PER_SECOND as int)
        && 0 <= (GRAVITY * dtc) / (MICROS_PER_SECOND as int)
        && (GRAVITY * (MAX_GRAVITY_STEP_MICROS as int)) / (MICROS_PER_SECOND as int) == 49)
        by (nonlinear_arith)
        requires
            0 <= GRAVITY * dtc <= GRAVITY * (MAX_GRAVITY_STEP_MICROS as int),
            GRAVITY * (MAX_GRAVITY_STEP_MICROS as int) == 49000000,
            MICROS_PER_SECOND == 1000000u64;
}

/// The clamped gravity impulse for one tick.
pub fn gravity_delta(dt_micros: u64) -> (delta: i64)
    ensures
        delta == spec_gravity_delta(dt_micros),
        0 <= delta <= 49,
{
    let dtc: u64 = if dt_micros > MAX_GRAVITY_STEP_MICROS {
        MAX_GRAVITY_STEP_MICROS
    } else {
        dt_micros
    };
    let delta64: u64 = (GRAVITY as u64) * dtc / MICROS_PER_SECOND;
    let delta: i64 = delta64 as i64;
    assert(delta == spec_gravity_delta(dt_micros) && 0 <= delta <= 49) by (nonlinear_arith)
        requires
            delta64 == ((GRAVITY as u64) * dtc) as int / MICROS_PER_SECOND as int,
            delta == delta64 as int,
            dtc as int == (if dt_micros > MAX_GRAVITY_STEP_MICROS {
                MAX_GRAVITY_STEP_MICROS as int
            } else {
                dt_micros as int
            }),
            spec_gravity_delta(dt_micros) == (GRAVITY * (dtc as int)) / (MICROS_PER_SECOND as int),
            GRAVITY == 980i64,
            MAX_GRAVITY_STEP_MICROS == 50000u64,
            MICROS_PER_SECOND == 1000000u64;
    delta
}

/// Apply gravity to every movable body, decreasing the vertical velocity
/// by the clamped impulse; bodies whose gravity is disabled are left
/// unchanged.
pub fn physics_gravity(bodies: &mut Vec<Body>, dt_micros: u64)
    requires
        forall|i: int| 0 <= i < old(bodies).len() ==> vel_in_play(#[trigger] old(bodies)[i].vel),
    ensures
        final(bodies).len() == old(bodies).len(),
        forall|i: int| 0 <= i < old(bodies).len() ==> {
            let ob = #[trigger] old(bodies)[i];
            let nb = final(bodies)[i];
            nb.hitbox == ob.hitbox && nb.pos == ob.pos && nb.moveable == ob.moveable && nb.vel
                == spec_gravity_vel(ob.vel, ob.moveable, dt_micros)
        },
{
    let delta: i64 = gravity_delta(dt_micros);
    let n = bodies.len();
    let mut i: usize = 0;
    while i < n
        invariant
            n == bodies.len() == old(bodies).len(),
            0 <= i <= n,
            0 <= delta <= 49,
            delta == spec_gravity_delta(dt_micros),
            forall|j: int| 0 <= j < old(bodies).len() ==> vel_in_play(#[trigger] old(bodies)[j].vel),
            forall|j: int| i <= j < n ==> #[trigger] bodies[j] == old(bodies)[j],
            forall|j: int| 0 <= j < i ==> {
                let ob = #[trigger] old(bodies)[j];
                let nb = bodies[j];
                nb.hitbox == ob.hitbox && nb.pos == ob.pos && nb.moveable == ob.moveable && nb.vel
                    == spec_gravity_vel(ob.vel, ob.moveable, dt_micros)
            },
        decreases n - i,
    {
        let b = bodies[i];
        if b.moveable.gravity_enabled {
            let nb = Body {
                vel: Velocity { x: b.vel.x, y: b.vel.y - delta },
                ..b
            };
            bodies.set(i, nb);
        }
        i = i + 1;
    }
}

/// Displacement of one velocity component over a bounded time step.
pub fn scale_vel(v: i64, dt_micros: u64) -> (r: i64)
    requires
        -2 * COORD_LIMIT <= v <= 2 * COORD_LIMIT,
        dt_micros <= MAX_TICK_MICROS,
    ensures
        r == (v * dt_micros) / (MICROS_PER_SECOND as int),
        -2 * COORD_LIMIT <= r <= 2 * COORD_LIMIT,
{
    assert(-2_000_000_000_000_000 <= (v as i128) * (dt_micros as i128)
        <= 2_000_000_000_000_000) by (nonlinear_arith)
        requires
            -2_000_000_000 <= v as i128 <= 2_000_000_000,
            0 <= dt_micros as i128 <= 1_000_000;
    let prod: i128 = (v as i128) * (dt_micros as i128);
    let q = floor_div128(prod, 1_000_000);
    proof {
        lemma_scale_range(prod as int, q as int);
    }
    q as i64
}

/// The scaled displacement keeps the velocity bound.
proof fn lemma_scale_range(p: int, q: int)
    requires
        -2_000_000_000_000_000 <= p <= 2_000_000_000_000_000,
        q == p / 1_000_000,
    ensures
        -2_000_000_000 <= q <= 2_000_000_000,
{
    lemma_div_is_ordered(p, 2_000_000_000_000_000, 1_000_000);
    lemma_div_is_ordered(-2_000_000_000_000_000, p, 1_000_000);
    lemma_fundamental_div_mod_converse_div(2_000_000_000_000_000, 1_000_000, 2_000_000_000, 0);
    lemma_fundamental_div_mod_converse_div(-2_000_000_000_000_000, 1_000_000, -2_000_000_000, 0);
}

/// The position of one body after its velocity acts for one tick.
pub open spec fn spec_move_pos(p: Vec2, v: Velocity, dt_micros: u64) -> Vec2 {
    Vec2 {
        x: (p.x + (v.x * dt_micros) / (MICROS_PER_SECOND as int)) as i64,
        y: (p.y + (v.y * dt_micros) / (MICROS_PER_SECOND as int)) as i64,
    }
}

/// Advance every body's position by its velocity times the (unclamped)
/// time step.
pub fn physics_move(bodies: &mut Vec<Body>, dt_micros: u64)
    requires
        dt_micros <= MAX_TICK_MICROS,
        forall|i: int| 0 <= i < old(bodies).len() ==> vel_in_play(#[trigger] old(bodies)[i].vel),
        forall|i: int| 0 <= i < old(bodies).len() ==> {
            let p = #[trigger] old(bodies)[i].pos;
            -3 * COORD_LIMIT <= p.x <= 3 * COORD_LIMIT && -3 * COORD_LIMIT <= p.y <= 3
                * COORD_LIMIT
        },
    ensures
        final(bodies).len() == old(bodies).len(),
        forall|i: int| 0 <= i < old(bodies).len() ==> {
            let ob = #[trigger] old(bodies)[i];
            let nb = final(bodies)[i];
            nb.hitbox == ob.hitbox && nb.vel == ob.vel && nb.moveable == ob.moveable && nb.pos
                == spec_move_pos(ob.pos, ob.vel, dt_micros) && pos_in_play(nb.pos)
        },
{
    let n = bodies.len();
    let mut i: usize = 0;
    while i < n
        invariant
            n == bodies.len() == old(bodies).len(),
            0 <= i <= n,
            dt_micros <= MAX_TICK_MICROS,
            forall|j: int| 0 <= j < old(bodies).len() ==> vel_in_play(#[trigger] old(bodies)[j].vel),
            forall|j: int| 0 <= j < old(bodies).len() ==> {
                let p = #[trigger] old(bodies)[j].pos;
                -3 * COORD_LIMIT <= p.x <= 3 * COORD_LIMIT && -3 * COORD_LIMIT <= p.y <= 3
                    * COORD_LIMIT
            },
            forall|j: int| i <= j < n ==> #[trigger] bodies[j] == old(bodies)[j],
            forall|j: int| 0 <= j < i ==> {
                let ob = #[trigger] old(bodies)[j];
                let nb = bodies[j];
                nb.hitbox == ob.hitbox && nb.vel == ob.vel && nb.moveable == ob.moveable && nb.pos
                    == spec_move_pos(ob.pos, ob.vel, dt_micros) && pos_in_play(nb.pos)
            },
        decreases n - i,
    {
        let b = bodies[i];
        assert(b == old(bodies)[i as int]);
        assert(vel_in_play(b.vel) && -3 * COORD_LIMIT <= b.pos.x <= 3 * COORD_LIMIT && -3
            * COORD_LIMIT <= b.pos.y <= 3 * COORD_LIMIT);
        let dx = scale_vel(b.vel.x, dt_micros);
        let dy = scale_vel(b.vel.y, dt_micros);
        let nb = Body { pos: Vec2 { x: b.pos.x + dx, y: b.pos.y + dy }, ..b };
        assert(nb.pos == spec_move_pos(b.pos, b.vel, dt_micros));
        assert(pos_in_play(nb.pos));
        assert(nb.hitbox == b.hitbox && nb.vel == b.vel && nb.moveable == b.moveable);
        bodies.set(i, nb);
        assert(bodies[i as int] == nb);
        i = i + 1;
    }
}

/// The position and velocity of a body after it is resolved against the
/// first `n` blocks in order, skipping the blocks it does not overlap.
pub open spec fn spec_resolve_all(
    h: Hitbox,
    pos: Vec2,
    vel: Velocity,
    blocks: Seq<Block>,
    n: int,
) -> (Vec2, Velocity)
    decreases n,
{
    if n <= 0 {
        (pos, vel)
    } else {
        let prev = spec_resolve_all(h, pos, vel, blocks, n - 1);
        let bl = blocks[n - 1];
        if spec_are_colliding(h, prev.0, bl.hitbox, bl.pos) {
            spec_resolve(h, prev.0, prev.1, bl.hitbox, bl.pos)
        } else {
            prev
        }
    }
}

/// Law: resolving a body that overlaps none of the blocks changes
/// neither its position nor its velocity.
pub proof fn lemma_resolution_idempotent(h: Hitbox, pos: Vec2, vel: Velocity, blocks: Seq<Block>)
    requires
        forall|j: int| 0 <= j < blocks.len() ==> !spec_are_colliding(
            h,
            pos,
            (#[trigger] blocks[j]).hitbox,
            blocks[j].pos,
        ),
    ensures
        spec_resolve_all(h, pos, vel, blocks, blocks.len() as int) == (pos, vel),
{
    lemma_resolution_idempotent_upto(h, pos, vel, blocks, blocks.len() as int);
}

/// Helper for [`lemma_resolution_idempotent`]: the same statement for a
/// prefix of the blocks.
proof fn lemma_resolution_idempotent_upto(
    h: Hitbox,
    pos: Vec2,
    vel: Velocity,
    blocks: Seq<Block>,
    n: int,
)
    requires
        n <= blocks.len(),
        forall|j: int| 0 <= j < blocks.len() ==> !spec_are_colliding(
            h,
            pos,
            (#[trigger] blocks[j]).hitbox,
            blocks[j].pos,
        ),
    ensures
        spec_resolve_all(h, pos, vel, blocks, n) == (pos, vel),
    decreases n,
{
    if n > 0 {
        lemma_resolution_idempotent_upto(h, pos, vel, blocks, n - 1);
    }
}

/// Resolve every movable body against every block, in order, pushing
/// overlapping bodies out and damping their velocities.
pub fn physics_collide(bodies: &mut Vec<Body>, blocks: &Vec<Block>)
    requires
        forall|i: int| 0 <= i < old(bodies).len() ==> hitbox_wf(#[trigger] old(bodies)[i].hitbox),
        forall|i: int| 0 <= i < old(bodies).len() ==> pos_in_play(#[trigger] old(bodies)[i].pos),
        forall|i: int| 0 <= i < old(bodies).len() ==> vel_in_play(#[trigger] old(bodies)[i].vel),
        forall|j: int| 0 <= j < blocks.len() ==> block_wf(#[trigger] blocks[j]),
    ensures
        final(bodies).len() == old(bodies).len(),
        forall|i: int| 0 <= i < old(bodies).len() ==> {
            let ob = #[trigger] old(bodies)[i];
            let nb = final(bodies)[i];
            let rv = spec_resolve_all(ob.hitbox, ob.pos, ob.vel, blocks@, blocks@.len() as int);
            nb.hitbox == ob.hitbox && nb.moveable == ob.moveable && nb.pos == rv.0 && nb.vel
                == rv.1 && pos_in_play(nb.pos) && vel_in_play(nb.vel)
        },
{
    let n = bodies.len();
    let mut i: usize = 0;
    while i < n
        invariant
            n == bodies.len() == old(bodies).len(),
            0 <= i <= n,
            forall|j: int| 0 <= j < old(bodies).len() ==> hitbox_wf(
                #[trigger] old(bodies)[j].hitbox,
            ),
            forall|j: int| 0 <= j < old(bodies).len() ==> pos_in_play(#[trigger] old(bodies)[j].pos),
            forall|j: int| 0 <= j < old(bodies).len() ==> vel_in_play(#[trigger] old(bodies)[j].vel),
            forall|j: int| 0 <= j < blocks.len() ==> block_wf(#[trigger] blocks@[j]),
            forall|j: int| i <= j < n ==> #[trigger] bodies[j] == old(bodies)[j],
            forall|j: int| 0 <= j < i ==> {
                let ob = #[trigger] old(bodies)[j];
                let nb = bodies[j];
                let rv = spec_resolve_all(ob.hitbox, ob.pos, ob.vel, blocks@, blocks@.len() as int);
                nb.hitbox == ob.hitbox && nb.moveable == ob.moveable && nb.pos == rv.0 && nb.vel
                    == rv.1 && pos_in_play(nb.pos) && vel_in_play(nb.vel)
            },
        decreases n - i,
    {
        let b = bodies[i];
        let mut pos = b.pos;
        let mut vel = b.vel;
        let m = blocks.len();
        let mut j: usize = 0;
        while j < m
            invariant
                m == blocks.len(),
                0 <= j <= m,
                hitbox_wf(b.hitbox),
                pos_in_play(pos),
                vel_in_play(vel),
                forall|k: int| 0 <= k < blocks.len() ==> block_wf(#[trigger] blocks@[k]),
                (pos, vel) == spec_resolve_all(b.hitbox, b.pos, b.vel, blocks@, j as int),
            decreases m - j,
        {
            let bl = &blocks[j];
            if are_colliding(&b.hitbox, &pos, &bl.hitbox, &bl.pos) {
                resolve_move_immove_collision(&b.hitbox, &mut pos, &mut vel, &bl.hitbox, &bl.pos);
            }
            j = j + 1;
        }
        let nb = Body { pos, vel, ..b };
        bodies.set(i, nb);
        i = i + 1;
    }
}


/// Sum of two points, as a translation.
pub open spec fn vadd(a: Vec2, b: Vec2) -> Vec2 {
    Vec2 { x: (a.x + b.x) as i64, y: (a.y + b.y) as i64 }
}

/// The two triangles that cover the hitbox's rectangle, split along a
/// diagonal, in world space.  The corners come from the same four edges
/// as [`get_bounds`], so the covered rectangle has exactly the
/// hitbox's dimensions and every subsystem sees one and the same
/// rectangle.
pub open spec fn spec_hitbox_tris(h: Hitbox, trans: Vec2) -> (Triangle, Triangle) {
    let left = spec_left(h, trans) as i64;
    let right = spec_right(h, trans) as i64;
    let top = spec_top(h, trans) as i64;
    let bot = spec_bot(h, trans) as i64;
    (
        Triangle {
            a: Vec2 { x: right, y: top },
            b: Vec2 { x: left, y: top },
            c: Vec2 { x: left, y: bot },
        },
        Triangle {
            a: Vec2 { x: right, y: top },
            b: Vec2 { x: left, y: bot },
            c: Vec2 { x: right, y: bot },
        },
    )
}

/// The four boundary segments of the hitbox's rectangle in world space,
/// in counter-clockwise order starting from the bottom-left corner; the
/// corners are the same edges that [`get_bounds`] reports.
pub open spec fn spec_hitbox_segments(h: Hitbox, trans: Vec2) -> Seq<(Vec2, Vec2)> {
    let left = spec_left(h, trans) as i64;
    let right = spec_right(h, trans) as i64;
    let top = spec_top(h, trans) as i64;
    let bot = spec_bot(h, trans) as i64;
    let pa = Vec2 { x: left, y: bot };
    let pb = Vec2 { x: left, y: top };
    let pc = Vec2 { x: right, y: top };
    let pd = Vec2 { x: right, y: bot };
    seq![(pa, pb), (pb, pc), (pc, pd), (pd, pa)]
}

impl Hitbox {
    /// The two world-space triangles that cover this hitbox's rectangle
    /// when its owner stands at `t`.
    pub fn two_triangles(&self, t: &Vec2) -> (r: (Triangle, Triangle))
        requires
            hitbox_wf(*self),
            pos_in_play(*t),
        ensures
            r == spec_hitbox_tris(*self, *t),
            tri_in_range(r.0),
            tri_in_range(r.1),
    {
        let (left, right, top, bot) = get_bounds(self, t);
        (
            Triangle {
                a: Vec2 { x: right, y: top },
                b: Vec2 { x: left, y: top },
                c: Vec2 { x: left, y: bot },
            },
            Triangle {
                a: Vec2 { x: right, y: top },
                b: Vec2 { x: left, y: bot },
                c: Vec2 { x: right, y: bot },
            },
        )
    }

    /// The four world-space boundary segments of this hitbox's rectangle
    /// when its owner stands at `t`.
    pub fn segments(&self, t: &Vec2) -> (r: Vec<(Vec2, Vec2)>)
        requires
            hitbox_wf(*self),
            pos_in_play(*t),
        ensures
            r@ == spec_hitbox_segments(*self, *t),
    {
        let (left, right, top, bot) = get_bounds(self, t);
        let pa = Vec2 { x: left, y: bot };
        let pb = Vec2 { x: left, y: top };
        let pc = Vec2 { x: right, y: top };
        let pd = Vec2 { x: right, y: bot };
        let mut r: Vec<(Vec2, Vec2)> = Vec::new();
        r.push((pa, pb));
        r.push((pb, pc));
        r.push((pc, pd));
        r.push((pd, pa));
        assert(r@ =~= spec_hitbox_segments(*self, *t));
        r
    }
}

} // verus!

use pupil::agent::{agent_move, check_oob, MoveInput};
use pupil::collisions::Vec2;
use pupil::environment::Block;
use pupil::physics::{
    are_colliding, get_bounds, gravity_delta, physics_collide, physics_gravity, physics_move,
    resolve_move_immove_collision, rotate, Body, Hitbox, Moveable, Rotation, Velocity,
};

fn v(x: i64, y: i64) -> Vec2 {
    Vec2 { x, y }
}

fn body(pos: Vec2, vel: Velocity, size: Vec2) -> Body {
    Body {
        hitbox: Hitbox { pos: v(0, 0), size },
        pos,
        vel,
        moveable: Moveable { gravity_enabled: true },
    }
}

#[test]
fn bounds_of_offset_hitbox() {
    let h = Hitbox { pos: v(1, 2), size: v(10, 6) };
    let (left, right, top, bot) = get_bounds(&h, &v(100, 200));
    assert_eq!((left, right, top, bot), (96, 106, 205, 199));
}

#[test]
fn overlap_test_is_strict_at_edges() {
    let h = Hitbox { pos: v(0, 0), size: v(10, 10) };
    // Touching along x = 5 does not count as overlap.
    assert!(!are_colliding(&h, &v(0, 0), &h, &v(10, 0)));
    assert!(are_colliding(&h, &v(0, 0), &h, &v(9, 0)));
    assert!(!are_colliding(&h, &v(0, 0), &h, &v(0, 100)));
}

#[test]
fn gravity_clamp_holds() {
    // A ten-frame stall applies exactly the clamped three-frame impulse
    // of 980 * 0.05 = 49.
    assert_eq!(gravity_delta(10 * 16666), gravity_delta(50_000));
    assert_eq!(gravity_delta(50_000), 49);
    // One nominal frame applies 980 * 16666 / 1000000 = 16.
    assert_eq!(gravity_delta(16666), 16);
    assert!(gravity_delta(1_000_000_000) <= 49);
}

#[test]
fn gravity_updates_only_enabled_bodies() {
    let mut bodies = vec![
        body(v(0, 0), Velocity { x: 3, y: 100 }, v(10, 10)),
        Body {
            moveable: Moveable { gravity_enabled: false },
            ..body(v(0, 0), Velocity { x: 0, y: 100 }, v(10, 10))
        },
    ];
    physics_gravity(&mut bodies, 16666);
    assert_eq!(bodies[0].vel.y, 84);
    assert_eq!(bodies[0].vel.x, 3);
    assert_eq!(bodies[1].vel.y, 100);
}

#[test]
fn move_integrates_velocity() {
    let mut bodies = vec![body(v(1000, 2000), Velocity { x: 500, y: -250 }, v(10, 10))];
    // One tenth of a second.
    physics_move(&mut bodies, 100_000);
    assert_eq!(bodies[0].pos, v(1050, 1975));
    assert_eq!(bodies[0].vel, Velocity { x: 500, y: -250 });
}

#[test]
fn falling_body_lands_on_block() {
    // A body at (0, 50) falling at 500 units per second onto a block
    // spanning x in [-50, 50] and y in [-10, 10]: after the move it
    // overlaps, and resolution leaves its bottom on the block's top with
    // the vertical velocity reflected and damped to +200.
    let mut bodies = vec![Body {
        moveable: Moveable { gravity_enabled: false },
        ..body(v(0, 50), Velocity { x: 0, y: -500 }, v(20, 20))
    }];
    let blocks = vec![Block::new(v(0, 0), v(100, 20))];
    physics_move(&mut bodies, 80_000);
    assert_eq!(bodies[0].pos, v(0, 10));
    physics_collide(&mut bodies, &blocks);
    assert_eq!(bodies[0].pos, v(0, 20));
    assert_eq!(bodies[0].vel, Velocity { x: 0, y: 200 });
}

#[test]
fn resolve_picks_smallest_push() {
    // Overlapping the block's left edge by 2 while 18 deep vertically:
    // the push to the left wins.
    let h = Hitbox { pos: v(0, 0), size: v(10, 10) };
    let bh = Hitbox { pos: v(0, 0), size: v(100, 100) };
    let mut pos = v(-48, 0);
    let mut vel = Velocity { x: 30, y: 0 };
    assert!(are_colliding(&h, &pos, &bh, &v(0, 0)));
    resolve_move_immove_collision(&h, &mut pos, &mut vel, &bh, &v(0, 0));
    assert_eq!(pos, v(-55, 0));
    // The x velocity pointed into the block, so it is reflected and damped.
    assert_eq!(vel, Velocity { x: -12, y: 0 });
    assert!(!are_colliding(&h, &pos, &bh, &v(0, 0)));
}

#[test]
fn resolving_non_overlapping_bodies_is_a_no_op() {
    let mut bodies = vec![body(v(0, 100), Velocity { x: 7, y: -9 }, v(20, 20))];
    let blocks = vec![
        Block::new(v(0, 0), v(100, 20)),
        Block::new(v(300, 100), v(50, 50)),
    ];
    physics_collide(&mut bodies, &blocks);
    assert_eq!(bodies[0].pos, v(0, 100));
    assert_eq!(bodies[0].vel, Velocity { x: 7, y: -9 });
}

#[test]
fn rotate_quarter_turn() {
    // cos 90 = 0, sin 90 = 1 in fixed point.
    let quarter = Rotation { c: 0, s: 65536 };
    assert_eq!(rotate(v(100, 0), &quarter), v(0, 100));
    assert_eq!(rotate(v(0, 100), &quarter), v(-100, 0));
}

#[test]
fn rotate_eighth_turn_rounds_toward_zero() {
    // cos 45 and sin 45 in fixed point: 46341 / 65536.
    let eighth = Rotation { c: 46341, s: 46341 };
    assert_eq!(rotate(v(100, 0), &eighth), v(70, 70));
    // Rounding commutes with negation: the opposite vector rotates to
    // the opposite image.
    assert_eq!(rotate(v(-100, 0), &eighth), v(-70, -70));
}

#[test]
fn identity_rotation_is_exact() {
    let id = Rotation { c: 65536, s: 0 };
    assert_eq!(rotate(v(123, -456), &id), v(123, -456));
}

#[test]
fn agent_move_accelerates_and_caps() {
    let mut vel = Velocity { x: 0, y: 0 };
    agent_move(&mut vel, MoveInput { left: false, right: true, jump: false });
    assert_eq!(vel.x, 40);
    let mut fast = Velocity { x: 290, y: 0 };
    agent_move(&mut fast, MoveInput { left: false, right: true, jump: false });
    assert_eq!(fast.x, 300);
    let mut fast_left = Velocity { x: -290, y: 0 };
    agent_move(&mut fast_left, MoveInput { left: true, right: false, jump: false });
    assert_eq!(fast_left.x, -300);
}

#[test]
fn agent_move_decays_without_input() {
    let mut vel = Velocity { x: 100, y: 5 };
    agent_move(&mut vel, MoveInput { left: false, right: false, jump: false });
    assert_eq!(vel.x, 82);
    assert_eq!(vel.y, 5);
}

#[test]
fn agent_move_jump_sets_half_gravity() {
    let mut vel = Velocity { x: 10, y: -50 };
    agent_move(&mut vel, MoveInput { left: false, right: false, jump: true });
    assert_eq!(vel.y, 490);
    assert_eq!(vel.x, 8);
}

#[test]
fn check_oob_freezes_escaped_bodies() {
    let mut bodies = vec![
        body(v(0, 0), Velocity { x: 5, y: 5 }, v(10, 10)),
        body(v(700, 0), Velocity { x: 5, y: 5 }, v(10, 10)),
        body(v(0, -400), Velocity { x: 5, y: 5 }, v(10, 10)),
    ];
    check_oob(&mut bodies, 640, 360);
    assert_eq!(bodies[0].vel, Velocity { x: 5, y: 5 });
    assert!(bodies[0].moveable.gravity_enabled);
    assert_eq!(bodies[1].vel, Velocity { x: 0, y: 0 });
    assert!(!bodies[1].moveable.gravity_enabled);
    assert_eq!(bodies[2].vel, Velocity { x: 0, y: 0 });
    assert!(!bodies[2].moveable.gravity_enabled);
    // The boundary itself counts as out on the right edge.
    let mut edge = vec![body(v(640, 0), Velocity { x: 1, y: 1 }, v(10, 10))];
    check_oob(&mut edge, 640, 360);
    assert!(!edge[0].moveable.gravity_enabled);
}

#[test]
fn hitbox_segments_trace_the_rectangle() {
    let h = Hitbox { pos: v(0, 0), size: v(10, 6) };
    let segs = h.segments(&v(100, 200));
    assert_eq!(
        segs,
        vec![
            (v(95, 197), v(95, 203)),
            (v(95, 203), v(105, 203)),
            (v(105, 203), v(105, 197)),
            (v(105, 197), v(95, 197)),
        ]
    );
}

#[test]
fn hitbox_two_triangles_cover_the_rectangle() {
    let h = Hitbox { pos: v(0, 0), size: v(50, 50) };
    let (t1, t2) = h.two_triangles(&v(90, 0));
    assert_eq!((t1.a, t1.b, t1.c), (v(115, 25), v(65, 25), v(65, -25)));
    assert_eq!((t2.a, t2.b, t2.c), (v(115, 25), v(65, -25), v(115, -25)));
}

#[test]
fn odd_size_hitbox_shapes_agree_with_bounds() {
    // Every subsystem sees one and the same rectangle: for an odd size
    // the triangle cover and the segments span exactly the bounds that
    // the overlap test uses, 5 wide and 3 tall.
    let h = Hitbox { pos: v(0, 0), size: v(5, 3) };
    let (left, right, top, bot) = get_bounds(&h, &v(0, 0));
    assert_eq!((left, right, top, bot), (-2, 3, 1, -2));
    let (t1, t2) = h.two_triangles(&v(0, 0));
    assert_eq!((t1.a, t1.b, t1.c), (v(3, 1), v(-2, 1), v(-2, -2)));
    assert_eq!((t2.a, t2.b, t2.c), (v(3, 1), v(-2, -2), v(3, -2)));
    let segs = h.segments(&v(0, 0));
    assert_eq!(
        segs,
        vec![
            (v(-2, -2), v(-2, 1)),
            (v(-2, 1), v(3, 1)),
            (v(3, 1), v(3, -2)),
            (v(3, -2), v(-2, -2)),
        ]
    );
}

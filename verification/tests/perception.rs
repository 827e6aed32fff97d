use pupil::agent::{tick, Agent};
use pupil::eye::EyeBundle;
use pupil::collisions::Vec2;
use pupil::consts::Dir;
use pupil::environment::Block;
use pupil::eye::{compute_sensor_reading, eye_see, is_detected, SeeBox, Senses};
use pupil::physics::Rotation;

fn v(x: i64, y: i64) -> Vec2 {
    Vec2 { x, y }
}

fn forward_sensor(length: i64, width: i64) -> SeeBox {
    SeeBox {
        pos: v(0, 0),
        size: v(length, width),
        angle: Rotation { c: 65536, s: 0 },
        invert_x: false,
    }
}

#[test]
fn to_scale_halves_the_volume() {
    let sb = forward_sensor(100, 10);
    let half = sb.to_scale(256);
    assert_eq!(half.size, v(50, 5));
    assert_eq!(half.angle, sb.angle);
    assert_eq!(half.invert_x, sb.invert_x);
    let full = sb.to_scale(512);
    assert_eq!(full.size, sb.size);
    let none = sb.to_scale(0);
    assert_eq!(none.size, v(0, 0));
}

#[test]
fn sensor_triangles_point_forward() {
    let sb = forward_sensor(100, 10);
    let (t1, t2) = sb.two_triangles(v(0, 0));
    assert_eq!((t1.a, t1.b, t1.c), (v(100, 5), v(0, 5), v(0, -5)));
    assert_eq!((t2.a, t2.b, t2.c), (v(100, 5), v(0, -5), v(100, -5)));
}

#[test]
fn mirrored_sensor_points_backward() {
    let mut sb = forward_sensor(100, 10);
    sb.invert_x = true;
    // Facing left turns the volume by a half turn: the wedge points
    // backward, upside down.
    let (t1, _) = sb.two_triangles(v(0, 0));
    assert_eq!((t1.a, t1.b, t1.c), (v(-100, -5), v(0, -5), v(0, 5)));
}

#[test]
fn detection_against_blocks() {
    let sb = forward_sensor(100, 10);
    let near = vec![Block::new(v(90, 0), v(50, 50))];
    let far = vec![Block::new(v(150, 0), v(50, 50))];
    assert!(is_detected(&sb, v(0, 0), &near));
    assert!(!is_detected(&sb, v(0, 0), &far));
    assert!(!is_detected(&sb, v(0, 0), &vec![]));
}

#[test]
fn reading_none_when_obstacle_out_of_range() {
    // Obstacle centered at (150, 0): its left edge at x = 125 lies
    // beyond the sensor's length of 100.
    let sb = forward_sensor(100, 10);
    let blocks = vec![Block::new(v(150, 0), v(50, 50))];
    let r = compute_sensor_reading(&sb, v(0, 0), &blocks);
    assert_eq!(r, None);
}

#[test]
fn reading_brackets_normalized_distance() {
    // Obstacle centered at (90, 0): its left edge at x = 65 gives a true
    // normalized distance of 0.65, and the search reports 333/512,
    // within 1/256 of it.
    let sb = forward_sensor(100, 10);
    let blocks = vec![Block::new(v(90, 0), v(50, 50))];
    let r = compute_sensor_reading(&sb, v(0, 0), &blocks);
    assert_eq!(r, Some(333));
}

#[test]
fn no_detection_reads_none_not_zero() {
    let sb = forward_sensor(100, 10);
    let r = compute_sensor_reading(&sb, v(0, 0), &vec![]);
    assert_eq!(r, None);
    assert_ne!(r, Some(0));
}

#[test]
fn touching_sensor_reads_near_zero() {
    // The agent stands inside the block: every scale with a
    // non-degenerate length detects.  Scales up to 5 shrink the
    // 100-unit length to zero, so detection starts at scale 6 and the
    // search brackets it.
    let sb = forward_sensor(100, 10);
    let blocks = vec![Block::new(v(0, 0), v(50, 50))];
    let r = compute_sensor_reading(&sb, v(0, 0), &blocks);
    assert_eq!(r, Some(5));
}

#[test]
fn zero_length_sensor_never_detects() {
    // A degenerate sensor of zero length yields no detection even with
    // the agent standing inside a block.
    let sb = forward_sensor(0, 10);
    let blocks = vec![Block::new(v(0, 0), v(50, 50))];
    assert!(!is_detected(&sb, v(0, 0), &blocks));
    assert_eq!(compute_sensor_reading(&sb, v(0, 0), &blocks), None);
}

#[test]
fn spawned_agent_has_indexed_eyes_and_cleared_senses() {
    let eye_info = vec![forward_sensor(100, 10), forward_sensor(80, 6)];
    let agent = Agent::new(v(-50, 50), v(64, 64), eye_info);
    assert_eq!(agent.senses.data.len(), 2);
    assert_eq!(agent.senses.data[0], None);
    assert_eq!(agent.senses.data[1], None);
    assert_eq!(agent.eyes.len(), 2);
    assert_eq!(agent.eyes[0].eye.ix, 0);
    assert_eq!(agent.eyes[1].eye.ix, 1);
    assert_eq!(agent.eyes[1].seebox.size, v(80, 6));
    assert_eq!(agent.dir, Dir::Right);
    assert_eq!(agent.body.pos, v(-50, 50));
    assert!(agent.body.moveable.gravity_enabled);
}

#[test]
fn eye_see_fills_each_slot_and_sets_facing() {
    let sb = forward_sensor(100, 10);
    let blocks = vec![Block::new(v(90, 0), v(50, 50))];
    let mut eyes = vec![EyeBundle::new(0, v(0, 0), v(100, 10), sb.angle)];
    let mut senses = Senses::new(1);
    eye_see(&mut eyes, &mut senses, v(0, 0), Dir::Right, &blocks);
    assert!(!eyes[0].seebox.invert_x);
    assert_eq!(senses.data[0], Some(333));
    // Facing left turns the sensor away from the obstacle.
    eye_see(&mut eyes, &mut senses, v(0, 0), Dir::Left, &blocks);
    assert!(eyes[0].seebox.invert_x);
    assert_eq!(senses.data[0], None);
}

#[test]
fn tick_runs_integrate_resolve_perceive_in_order() {
    // An agent one frame above a wide floor, watching a wall ahead: the
    // tick pulls it down with gravity, resolves it onto the floor, and
    // reads its sensor at the resolved position.
    let eye_info = vec![forward_sensor(100, 10)];
    let mut agent = Agent::new(v(0, 21), v(20, 20), eye_info);
    agent.body.vel.y = -500;
    let blocks = vec![
        Block::new(v(0, 0), v(1000, 20)),
        Block::new(v(90, 21), v(50, 50)),
    ];
    // 0.01 s: gravity adds an impulse of 9, the move carries the body 6
    // units down into the floor, and the resolver sets it back on top
    // with its bottom at y = 10 and the fall reflected and damped.
    tick(&mut agent, &blocks, 10_000);
    assert_eq!(agent.body.pos.y, 20);
    assert_eq!(agent.body.vel.y, 203);
    // The sensor at the resolved height sees the wall ahead.
    assert_eq!(agent.senses.data[0], Some(333));
}

#[test]
fn detection_is_monotone_in_scale() {
    // Shrinking the sensor can only lose detections: once a scale
    // detects the obstacle, every larger scale detects it too.
    let sb = forward_sensor(100, 10);
    let blocks = vec![Block::new(v(90, 0), v(50, 50))];
    let mut smallest_detected: Option<u32> = None;
    for k in 0..=512u32 {
        let sized = sb.to_scale(k);
        if is_detected(&sized, v(0, 0), &blocks) {
            if smallest_detected.is_none() {
                smallest_detected = Some(k);
            }
        } else {
            assert!(smallest_detected.is_none(), "detection lost at scale {}", k);
        }
    }
    // The obstacle's near edge at x = 65 becomes visible at the first
    // scale whose wedge reaches it: 100 * k / 512 >= 65 from k = 333 on.
    assert_eq!(smallest_detected, Some(333));
}

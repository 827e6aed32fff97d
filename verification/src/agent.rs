//! Agents: a movable body carrying indexed vision sensors and a senses
//! vector, the control interface, the world-bounds check, and the
//! per-tick pipeline that integrates, resolves and perceives in order.

use vstd::prelude::*;

use crate::collisions::Vec2;
use crate::consts::{Dir, COORD_LIMIT, GRAVITY, MAX_TICK_MICROS, MAX_X_MOVE_SPEED, X_ACCELERATION};
use crate::environment::{block_wf, Block};
use crate::eye::{eye_see, seebox_wf, spec_faced, spec_sense, Eye, EyeBundle, SeeBox, Senses};
use crate::physics::{
    are_colliding, gravity_delta, half, hitbox_wf, pos_in_play, pt_in_world,
    resolve_move_immove_collision, scale_vel, spec_gravity_vel, spec_move_pos, spec_resolve_all,
    vel_in_play, Body, Hitbox, Moveable, Velocity,
};

verus! {

/// An agent: a movable body, a facing direction, a per-sensor readings
/// vector, and the sensors that fill it.
pub struct Agent {
    pub body: Body,
    pub dir: Dir,
    pub senses: Senses,
    pub eyes: Vec<EyeBundle>,
}

/// The agent's sensors are well formed, indexed injectively, and each
/// sensor owns a slot of the senses vector.
pub open spec fn agent_wf(a: Agent) -> bool {
    &&& hitbox_wf(a.body.hitbox)
    &&& forall|i: int| 0 <= i < a.eyes.len() ==> seebox_wf((#[trigger] a.eyes[i]).seebox)
    &&& forall|i: int| 0 <= i < a.eyes.len() ==> (#[trigger] a.eyes[i]).eye.ix
        < a.senses.data.len()
    &&& forall|i: int, j: int|
        #![trigger a.eyes[i], a.eyes[j]]
        0 <= i < j < a.eyes.len() ==> a.eyes[i].eye.ix != a.eyes[j].eye.ix
}

impl Agent {
    /// Spawn an agent at `pos` with a body of the given size and one
    /// sensor per entry of `eye_info`, each assigned the next stable
    /// slot index, with a cleared senses vector sized to the sensor
    /// count.
    pub fn new(pos: Vec2, size: Vec2, eye_info: Vec<SeeBox>) -> (r: Agent)
        requires
            pt_in_world(pos),
            0 <= size.x <= COORD_LIMIT,
            0 <= size.y <= COORD_LIMIT,
            forall|i: int| 0 <= i < eye_info.len() ==> seebox_wf(#[trigger] eye_info[i]),
        ensures
            r.body == (Body {
                hitbox: Hitbox { pos: Vec2 { x: 0, y: 0 }, size },
                pos,
                vel: Velocity { x: 0, y: 0 },
                moveable: Moveable { gravity_enabled: true },
            }),
            r.dir == Dir::Right,
            r.senses.data.len() == eye_info.len(),
            forall|i: int| 0 <= i < eye_info.len() ==> #[trigger] r.senses.data[i]
                == Option::<u32>::None,
            r.eyes.len() == eye_info.len(),
            forall|i: int| 0 <= i < eye_info.len() ==> (#[trigger] r.eyes[i]).eye.ix == i
                && r.eyes[i].seebox == eye_info[i],
            agent_wf(r),
    {
        let n = eye_info.len();
        let senses = Senses::new(n);
        let mut eyes: Vec<EyeBundle> = Vec::new();
        let mut i: usize = 0;
        while i < n
            invariant
                0 <= i <= n,
                n == eye_info.len(),
                eyes.len() == i,
                forall|j: int| 0 <= j < eye_info.len() ==> seebox_wf(#[trigger] eye_info[j]),
                forall|j: int| 0 <= j < i ==> (#[trigger] eyes[j]).eye.ix == j && eyes[j].seebox
                    == eye_info[j],
            decreases n - i,
        {
            eyes.push(EyeBundle { eye: Eye { ix: i }, seebox: eye_info[i] });
            i = i + 1;
        }
        Agent {
            body: Body {
                hitbox: Hitbox { pos: Vec2 { x: 0, y: 0 }, size },
                pos,
                vel: Velocity { x: 0, y: 0 },
                moveable: Moveable { gravity_enabled: true },
            },
            dir: Dir::Right,
            senses,
            eyes,
        }
    }
}

/// The control signals an external driver supplies for one tick.
#[derive(Clone, Copy, PartialEq, Eq, Structural, Debug)]
pub struct MoveInput {
    pub left: bool,
    pub right: bool,
    pub jump: bool,
}

/// The velocity after one tick of control input: horizontal
/// acceleration while a key is held, decay by 82/100 otherwise, a cap
/// on horizontal speed, and a jump that sets the vertical velocity to
/// half the gravity constant.
pub open spec fn spec_agent_move_vel(v: Velocity, input: MoveInput) -> Velocity {
    let vx1: i64 = if input.left {
        (v.x - X_ACCELERATION) as i64
    } else if input.right {
        (v.x + X_ACCELERATION) as i64
    } else {
        ((v.x * 82) / 100) as i64
    };
    let vx2: i64 = if vx1 > MAX_X_MOVE_SPEED {
        MAX_X_MOVE_SPEED
    } else if vx1 < -MAX_X_MOVE_SPEED {
        (-MAX_X_MOVE_SPEED) as i64
    } else {
        vx1
    };
    let vy: i64 = if input.jump {
        (GRAVITY / 2) as i64
    } else {
        v.y
    };
    Velocity { x: vx2, y: vy }
}

/// Apply one tick of control input to a velocity.
pub fn agent_move(velocity: &mut Velocity, input: MoveInput)
    requires
        vel_in_play(*old(velocity)),
    ensures
        *final(velocity) == spec_agent_move_vel(*old(velocity), input),
        -MAX_X_MOVE_SPEED <= final(velocity).x <= MAX_X_MOVE_SPEED,
        final(velocity).y == (if input.jump {
            GRAVITY / 2
        } else {
            old(velocity).y as int
        }),
{
    if input.left {
        velocity.x = velocity.x - X_ACCELERATION;
    } else if input.right {
        velocity.x = velocity.x + X_ACCELERATION;
    } else {
        velocity.x = crate::physics::floor_div(velocity.x * 82, 100);
    }
    if velocity.x > MAX_X_MOVE_SPEED {
        velocity.x = MAX_X_MOVE_SPEED;
    } else if velocity.x < -MAX_X_MOVE_SPEED {
        velocity.x = -MAX_X_MOVE_SPEED;
    }
    if input.jump {
        velocity.y = half(GRAVITY);
    }
}

/// The position lies outside the world window of the given half-extents.
pub open spec fn spec_oob(p: Vec2, half_width: i64, half_height: i64) -> bool {
    ||| p.x < -half_width
    ||| half_width <= p.x
    ||| p.y < -half_height
    ||| half_height < p.y
}

/// Freeze every body that has left the world window: disable its
/// gravity and zero its velocity.  Bodies inside the window are left
/// unchanged.
pub fn check_oob(bodies: &mut Vec<Body>, half_width: i64, half_height: i64)
    requires
        half_width >= 0,
        half_height >= 0,
    ensures
        final(bodies).len() == old(bodies).len(),
        forall|i: int| 0 <= i < old(bodies).len() ==> {
            let ob = #[trigger] old(bodies)[i];
            let nb = final(bodies)[i];
            if spec_oob(ob.pos, half_width, half_height) {
                nb.hitbox == ob.hitbox && nb.pos == ob.pos && nb.vel == (Velocity { x: 0, y: 0 })
                    && nb.moveable == (Moveable { gravity_enabled: false })
            } else {
                nb == ob
            }
        },
{
    let n = bodies.len();
    let mut i: usize = 0;
    while i < n
        invariant
            n == bodies.len() == old(bodies).len(),
            0 <= i <= n,
            half_width >= 0,
            half_height >= 0,
            forall|j: int| i <= j < n ==> #[trigger] bodies[j] == old(bodies)[j],
            forall|j: int| 0 <= j < i ==> {
                let ob = #[trigger] old(bodies)[j];
                let nb = bodies[j];
                if spec_oob(ob.pos, half_width, half_height) {
                    nb.hitbox == ob.hitbox && nb.pos == ob.pos && nb.vel == (Velocity {
                        x: 0,
                        y: 0,
                    }) && nb.moveable == (Moveable { gravity_enabled: false })
                } else {
                    nb == ob
                }
            },
        decreases n - i,
    {
        let b = bodies[i];
        if b.pos.x < -half_width || half_width <= b.pos.x || b.pos.y < -half_height || half_height
            < b.pos.y {
            let nb = Body {
                vel: Velocity { x: 0, y: 0 },
                moveable: Moveable { gravity_enabled: false },
                ..b
            };
            bodies.set(i, nb);
            assert(bodies[i as int] == nb);
        }
        i = i + 1;
    }
}

/// Advance one agent by one simulation tick against the static blocks:
/// gravity with the clamped impulse, then position integration, then
/// collision resolution against every block in order, then a fresh
/// sensor reading for every eye at the post-resolution position.
pub fn tick(agent: &mut Agent, blocks: &Vec<Block>, dt_micros: u64)
    requires
        dt_micros <= MAX_TICK_MICROS,
        agent_wf(*old(agent)),
        pt_in_world(old(agent).body.pos),
        -COORD_LIMIT <= old(agent).body.vel.x <= COORD_LIMIT,
        -COORD_LIMIT <= old(agent).body.vel.y <= COORD_LIMIT,
        forall|j: int| 0 <= j < blocks.len() ==> block_wf(#[trigger] blocks[j]),
    ensures
        ({
            let ob = old(agent).body;
            let v1 = spec_gravity_vel(ob.vel, ob.moveable, dt_micros);
            let p1 = spec_move_pos(ob.pos, v1, dt_micros);
            let rv = spec_resolve_all(ob.hitbox, p1, v1, blocks@, blocks@.len() as int);
            &&& final(agent).body.hitbox == ob.hitbox
            &&& final(agent).body.moveable == ob.moveable
            &&& final(agent).body.pos == rv.0
            &&& final(agent).body.vel == rv.1
            &&& pos_in_play(final(agent).body.pos)
            &&& vel_in_play(final(agent).body.vel)
            &&& final(agent).dir == old(agent).dir
            &&& final(agent).eyes.len() == old(agent).eyes.len()
            &&& forall|k: int| 0 <= k < old(agent).eyes.len() ==> #[trigger] final(agent).eyes[k]
                == (EyeBundle {
                eye: old(agent).eyes[k].eye,
                seebox: spec_faced(old(agent).eyes[k].seebox, old(agent).dir),
            })
            &&& final(agent).senses.data.len() == old(agent).senses.data.len()
            &&& forall|k: int| 0 <= k < old(agent).eyes.len() ==> final(agent).senses.data[(
            #[trigger] old(agent).eyes[k]).eye.ix as int] == spec_sense(
                spec_faced(old(agent).eyes[k].seebox, old(agent).dir),
                rv.0,
                blocks@,
            )
            &&& forall|s: int|
                0 <= s < old(agent).senses.data.len() && (forall|k: int|
                    0 <= k < old(agent).eyes.len() ==> (#[trigger] old(agent).eyes[k]).eye.ix != s)
                    ==> #[trigger] final(agent).senses.data[s] == old(agent).senses.data[s]
        }),
        agent_wf(*final(agent)),
{
    let ghost ob = agent.body;
    // Gravity, with the clamped impulse.
    if agent.body.moveable.gravity_enabled {
        let delta = gravity_delta(dt_micros);
        agent.body.vel.y = agent.body.vel.y - delta;
    }
    assert(agent.body.vel == spec_gravity_vel(ob.vel, ob.moveable, dt_micros));
    // Position integration.
    let dx = scale_vel(agent.body.vel.x, dt_micros);
    let dy = scale_vel(agent.body.vel.y, dt_micros);
    agent.body.pos.x = agent.body.pos.x + dx;
    agent.body.pos.y = agent.body.pos.y + dy;
    assert(agent.body.pos == spec_move_pos(ob.pos, agent.body.vel, dt_micros));
    // Collision resolution against every block in order.
    let hb = agent.body.hitbox;
    let mut pos = agent.body.pos;
    let mut vel = agent.body.vel;
    let ghost p1 = pos;
    let ghost v1 = vel;
    let m = blocks.len();
    let mut j: usize = 0;
    while j < m
        invariant
            m == blocks.len(),
            0 <= j <= m,
            hb == ob.hitbox,
            hitbox_wf(ob.hitbox),
            pos_in_play(pos),
            vel_in_play(vel),
            forall|k: int| 0 <= k < blocks.len() ==> block_wf(#[trigger] blocks@[k]),
            (pos, vel) == spec_resolve_all(ob.hitbox, p1, v1, blocks@, j as int),
        decreases m - j,
    {
        let bl = &blocks[j];
        if are_colliding(&hb, &pos, &bl.hitbox, &bl.pos) {
            resolve_move_immove_collision(&hb, &mut pos, &mut vel, &bl.hitbox, &bl.pos);
        }
        j = j + 1;
    }
    agent.body.pos = pos;
    agent.body.vel = vel;
    // Perception at the post-resolution position.
    eye_see(&mut agent.eyes, &mut agent.senses, pos, agent.dir, blocks);
}

} // verus!

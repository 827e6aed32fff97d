//! Perception: directional vision sensors and binary-search
//! range-finding.
//!
//! A sensor's volume is a forward-facing rectangle of length `size.x`
//! and half-height `size.y / 2`, rotated by the sensor's angle (mirrored
//! when the agent faces left) and translated to the agent's position.
//! Detection asks whether either of the volume's two triangles collides
//! with either triangle of any sight-blocking block; a volume of zero
//! length is degenerate and never detects.  The reading is
//! found by a fixed eight-step binary search over the dyadic scales
//! `k / SCALE_ONE`, shrinking the volume until the smallest detected
//! scale is bracketed to within one step.

use vstd::prelude::*;

use vstd::arithmetic::div_mod::{lemma_div_is_ordered, lemma_fundamental_div_mod_converse_div};

use crate::collisions::{are_triangles_colliding, spec_triangles_colliding, tri_in_range, Triangle,
    Vec2};
use crate::consts::{COORD_LIMIT, Dir, SCALE_ONE, SEARCH_ITERS};
use crate::environment::{block_wf, Block};
use crate::physics::{half, lemma_mirror_rotation, pos_in_play, pt_in_world, rotate, rotation_wf,
    spec_hitbox_tris, spec_rotate, vadd, Rotation};

verus! {

/// A sensor entity: the stable slot index it writes in its agent's
/// senses vector.
#[derive(Clone, Copy, PartialEq, Eq, Structural, Debug)]
pub struct Eye {
    pub ix: usize,
}

/// A sensor volume: a local offset, the length and width of the forward
/// wedge, the sensor's base rotation, and whether the owning agent
/// currently faces left.
#[derive(Clone, Copy, PartialEq, Eq, Structural, Debug)]
pub struct SeeBox {
    pub pos: Vec2,
    pub size: Vec2,
    pub angle: Rotation,
    pub invert_x: bool,
}

/// A sensor together with its slot index.
#[derive(Clone, Copy, PartialEq, Eq, Structural, Debug)]
pub struct EyeBundle {
    pub eye: Eye,
    pub seebox: SeeBox,
}

/// An agent's per-sensor readings: one slot per sensor, each holding
/// either no detection or the detected scale numerator over
/// [`SCALE_ONE`].
#[derive(Debug)]
pub struct Senses {
    pub data: Vec<Option<u32>>,
}

impl EyeBundle {
    /// A sensor entity for slot `ix`: a fresh volume at the given local
    /// offset, with the given extents and base rotation, facing right.
    pub fn new(ix: usize, pos: Vec2, size: Vec2, angle: Rotation) -> (r: EyeBundle)
        ensures
            r == (EyeBundle {
                eye: Eye { ix },
                seebox: SeeBox { pos, size, angle, invert_x: false },
            }),
    {
        EyeBundle { eye: Eye { ix }, seebox: SeeBox { pos, size, angle, invert_x: false } }
    }
}

impl Senses {
    /// An empty senses vector with one cleared slot per sensor.
    pub fn new(num_senses: usize) -> (r: Senses)
        ensures
            r.data.len() == num_senses,
            forall|i: int| 0 <= i < num_senses ==> #[trigger] r.data[i] == Option::<u32>::None,
    {
        let mut data: Vec<Option<u32>> = Vec::new();
        let mut i: usize = 0;
        while i < num_senses
            invariant
                0 <= i <= num_senses,
                data.len() == i,
                forall|j: int| 0 <= j < i ==> #[trigger] data[j] == Option::<u32>::None,
            decreases num_senses - i,
        {
            data.push(None);
            i = i + 1;
        }
        Senses { data }
    }
}

/// The sensor volume has bounded extents and a well-formed rotation.
pub open spec fn seebox_wf(sb: SeeBox) -> bool {
    &&& pt_in_world(sb.pos)
    &&& 0 <= sb.size.x <= COORD_LIMIT
    &&& 0 <= sb.size.y <= COORD_LIMIT
    &&& rotation_wf(sb.angle)
}

/// The rotation actually applied to the volume: the base angle, or its
/// mirror image across the vertical axis when the agent faces left.
pub open spec fn spec_effective_rot(sb: SeeBox) -> Rotation {
    if sb.invert_x {
        Rotation { c: (-sb.angle.c) as i64, s: sb.angle.s }
    } else {
        sb.angle
    }
}

/// The sensor volume shrunk to the fraction `scale_num / SCALE_ONE` of
/// its size, keeping its angle and mirroring flag.
pub open spec fn spec_to_scale(sb: SeeBox, scale_num: u32) -> SeeBox {
    SeeBox {
        pos: sb.pos,
        size: Vec2 {
            x: ((sb.size.x * scale_num) / (SCALE_ONE as int)) as i64,
            y: ((sb.size.y * scale_num) / (SCALE_ONE as int)) as i64,
        },
        angle: sb.angle,
        invert_x: sb.invert_x,
    }
}

/// Scaling to the full scale leaves the volume unchanged.
pub proof fn lemma_to_scale_full(sb: SeeBox)
    requires
        seebox_wf(sb),
    ensures
        spec_to_scale(sb, SCALE_ONE) == sb,
{
    lemma_fundamental_div_mod_converse_div(
        (sb.size.x as int) * (SCALE_ONE as int),
        SCALE_ONE as int,
        sb.size.x as int,
        0,
    );
    lemma_fundamental_div_mod_converse_div(
        (sb.size.y as int) * (SCALE_ONE as int),
        SCALE_ONE as int,
        sb.size.y as int,
        0,
    );
}

/// Law: monotonic shrink of the volume itself.  Scaling by a smaller
/// fraction never enlarges either extent, the full-scale extents are
/// never exceeded, and everything else about the volume is unchanged —
/// so the un-rotated scaled volumes nest inside one another.
///
/// This is the shape half of the monotonic-shrink property that the
/// range-finding search depends on: a detection, too, should only ever
/// be lost by shrinking.  For ideal real-valued corners that follows
/// from this nesting, but here each rotated corner is rounded to whole
/// units on its own, so the rotated point sets can escape exact
/// nesting by one unit at the boundary.  The search convergence law
/// ([`lemma_search_convergence`]) therefore takes the detection
/// threshold as a hypothesis instead of deriving it from nesting.
pub proof fn lemma_to_scale_monotone(sb: SeeBox, k1: u32, k2: u32)
    requires
        seebox_wf(sb),
        k1 <= k2,
        k2 <= SCALE_ONE,
    ensures
        spec_to_scale(sb, k1).pos == spec_to_scale(sb, k2).pos,
        spec_to_scale(sb, k1).angle == spec_to_scale(sb, k2).angle,
        spec_to_scale(sb, k1).invert_x == spec_to_scale(sb, k2).invert_x,
        0 <= spec_to_scale(sb, k1).size.x <= spec_to_scale(sb, k2).size.x <= sb.size.x,
        0 <= spec_to_scale(sb, k1).size.y <= spec_to_scale(sb, k2).size.y <= sb.size.y,
{
    assert(sb.size.x * k1 <= sb.size.x * k2 && sb.size.y * k1 <= sb.size.y * k2)
        by (nonlinear_arith)
        requires
            0 <= sb.size.x,
            0 <= sb.size.y,
            k1 <= k2;
    lemma_div_is_ordered(sb.size.x * k1, sb.size.x * k2, SCALE_ONE as int);
    lemma_div_is_ordered(sb.size.y * k1, sb.size.y * k2, SCALE_ONE as int);
    lemma_scaled_le(sb.size.x as int, k1 as int, (sb.size.x * k1) / (SCALE_ONE as int));
    lemma_scaled_le(sb.size.x as int, k2 as int, (sb.size.x * k2) / (SCALE_ONE as int));
    lemma_scaled_le(sb.size.y as int, k1 as int, (sb.size.y * k1) / (SCALE_ONE as int));
    lemma_scaled_le(sb.size.y as int, k2 as int, (sb.size.y * k2) / (SCALE_ONE as int));
}

/// One extent scaled down by `num / SCALE_ONE`.
fn scale_len(v: i64, num: u32) -> (r: i64)
    requires
        0 <= v <= COORD_LIMIT,
        num <= SCALE_ONE,
    ensures
        r == ((v * num) / (SCALE_ONE as int)) as i64,
        0 <= r <= v,
{
    assert((v as u64) * (num as u64) <= 512_000_000_000) by (nonlinear_arith)
        requires
            0 <= v as u64 <= 1_000_000_000,
            num as u64 <= 512;
    let q = (v as u64) * (num as u64) / (SCALE_ONE as u64);
    proof {
        lemma_scaled_le(v as int, num as int, q as int);
    }
    q as i64
}

/// A length scaled by a fraction of at most one does not grow.
proof fn lemma_scaled_le(v: int, num: int, q: int)
    by (nonlinear_arith)
    requires
        v >= 0,
        0 <= num <= 512,
        q == (v * num) / 512,
    ensures
        0 <= q <= v,
{
}

/// The two world-space triangles of the sensor volume for an agent at
/// `trans`: the un-rotated wedge corners, rotated by the effective
/// rotation and translated by `trans`.
pub open spec fn spec_seebox_tris(sb: SeeBox, trans: Vec2) -> (Triangle, Triangle) {
    let rot = spec_effective_rot(sb);
    let hy = (sb.size.y / 2) as i64;
    let pa = Vec2 { x: sb.size.x, y: hy };
    let pb = Vec2 { x: 0, y: hy };
    let pc = Vec2 { x: 0, y: (-hy) as i64 };
    let pd = Vec2 { x: sb.size.x, y: (-hy) as i64 };
    (
        Triangle {
            a: vadd(trans, spec_rotate(pa, rot)),
            b: vadd(trans, spec_rotate(pb, rot)),
            c: vadd(trans, spec_rotate(pc, rot)),
        },
        Triangle {
            a: vadd(trans, spec_rotate(pa, rot)),
            b: vadd(trans, spec_rotate(pc, rot)),
            c: vadd(trans, spec_rotate(pd, rot)),
        },
    )
}

impl SeeBox {
    /// A copy of this volume scaled by `scale_num / SCALE_ONE`.
    pub fn to_scale(&self, scale_num: u32) -> (r: SeeBox)
        requires
            seebox_wf(*self),
            scale_num <= SCALE_ONE,
        ensures
            r == spec_to_scale(*self, scale_num),
            seebox_wf(r),
    {
        SeeBox {
            pos: self.pos,
            size: Vec2 {
                x: scale_len(self.size.x, scale_num),
                y: scale_len(self.size.y, scale_num),
            },
            angle: self.angle,
            invert_x: self.invert_x,
        }
    }

    /// The two world-space triangles of this volume for an agent at
    /// `trans`.
    pub fn two_triangles(&self, trans: Vec2) -> (r: (Triangle, Triangle))
        requires
            seebox_wf(*self),
            pos_in_play(trans),
        ensures
            r == spec_seebox_tris(*self, trans),
            tri_in_range(r.0),
            tri_in_range(r.1),
    {
        let rot = if self.invert_x {
            Rotation { c: -self.angle.c, s: self.angle.s }
        } else {
            self.angle
        };
        let hy = half(self.size.y);
        let pa = Vec2 { x: self.size.x, y: hy };
        let pb = Vec2 { x: 0, y: hy };
        let pc = Vec2 { x: 0, y: -hy };
        let pd = Vec2 { x: self.size.x, y: -hy };
        let ra = rotate(pa, &rot);
        let rb = rotate(pb, &rot);
        let rc = rotate(pc, &rot);
        let rd = rotate(pd, &rot);
        (
            Triangle {
                a: Vec2 { x: trans.x + ra.x, y: trans.y + ra.y },
                b: Vec2 { x: trans.x + rb.x, y: trans.y + rb.y },
                c: Vec2 { x: trans.x + rc.x, y: trans.y + rc.y },
            },
            Triangle {
                a: Vec2 { x: trans.x + ra.x, y: trans.y + ra.y },
                b: Vec2 { x: trans.x + rc.x, y: trans.y + rc.y },
                c: Vec2 { x: trans.x + rd.x, y: trans.y + rd.y },
            },
        )
    }
}

/// The sensor volume, placed at `pos`, sees the block: one of its two
/// triangles collides with one of the block's two triangles.
pub open spec fn spec_block_hit(sb: SeeBox, pos: Vec2, b: Block) -> bool {
    let et = spec_seebox_tris(sb, pos);
    let st = spec_hitbox_tris(b.hitbox, b.pos);
    ||| spec_triangles_colliding(et.0, st.0)
    ||| spec_triangles_colliding(et.0, st.1)
    ||| spec_triangles_colliding(et.1, st.0)
    ||| spec_triangles_colliding(et.1, st.1)
}

/// The sensor volume, placed at `pos`, sees at least one of the blocks.
/// A volume of zero length is degenerate and never sees anything.
pub open spec fn spec_is_detected(sb: SeeBox, pos: Vec2, blocks: Seq<Block>) -> bool {
    sb.size.x > 0 && exists|i: int|
        0 <= i < blocks.len() && spec_block_hit(sb, pos, #[trigger] blocks[i])
}

/// Whether the sensor volume at `pos` sees any of the blocks.  A
/// zero-length volume never detects.
pub fn is_detected(sb: &SeeBox, pos: Vec2, seeable: &Vec<Block>) -> (r: bool)
    requires
        seebox_wf(*sb),
        pos_in_play(pos),
        forall|i: int| 0 <= i < seeable.len() ==> block_wf(#[trigger] seeable[i]),
    ensures
        r == spec_is_detected(*sb, pos, seeable@),
{
    if sb.size.x == 0 {
        return false;
    }
    let (et1, et2) = sb.two_triangles(pos);
    let n = seeable.len();
    let mut i: usize = 0;
    while i < n
        invariant
            n == seeable.len(),
            0 <= i <= n,
            seebox_wf(*sb),
            sb.size.x > 0,
            pos_in_play(pos),
            forall|j: int| 0 <= j < seeable.len() ==> block_wf(#[trigger] seeable@[j]),
            et1 == spec_seebox_tris(*sb, pos).0,
            et2 == spec_seebox_tris(*sb, pos).1,
            tri_in_range(et1),
            tri_in_range(et2),
            forall|j: int| 0 <= j < i ==> !spec_block_hit(*sb, pos, #[trigger] seeable@[j]),
        decreases n - i,
    {
        let bl = &seeable[i];
        let (st1, st2) = bl.hitbox.two_triangles(&bl.pos);
        if are_triangles_colliding(&et1, &st1) || are_triangles_colliding(&et1, &st2)
            || are_triangles_colliding(&et2, &st1) || are_triangles_colliding(&et2, &st2) {
            assert(spec_block_hit(*sb, pos, seeable@[i as int]));
            return true;
        }
        i = i + 1;
    }
    false
}

/// Whether the sensor, shrunk to the scale `k / SCALE_ONE`, sees any of
/// the blocks.
pub open spec fn spec_detect_at(sb: SeeBox, pos: Vec2, blocks: Seq<Block>, k: u32) -> bool {
    spec_is_detected(spec_to_scale(sb, k), pos, blocks)
}

/// The scale numerator that the binary search reports after `fuel` more
/// halving steps of the bracket `[min, max]`.
pub open spec fn spec_search(
    sb: SeeBox,
    pos: Vec2,
    blocks: Seq<Block>,
    min: u32,
    max: u32,
    fuel: nat,
) -> u32
    decreases fuel,
{
    let mid = (((min + max) / 2) as u32);
    if fuel == 0 {
        mid
    } else if spec_detect_at(sb, pos, blocks, mid) {
        spec_search(sb, pos, blocks, min, mid, (fuel - 1) as nat)
    } else {
        spec_search(sb, pos, blocks, mid, max, (fuel - 1) as nat)
    }
}

/// The reading of one sensor: no detection at full scale yields nothing,
/// and otherwise the eight-step binary search brackets the smallest
/// detected scale.
pub open spec fn spec_sense(sb: SeeBox, pos: Vec2, blocks: Seq<Block>) -> Option<u32> {
    if !spec_is_detected(sb, pos, blocks) {
        None
    } else {
        Some(spec_search(sb, pos, blocks, 0, SCALE_ONE, SEARCH_ITERS as nat))
    }
}

/// Compute one sensor's reading against the blocks.
pub fn compute_sensor_reading(sb: &SeeBox, pos: Vec2, seeable: &Vec<Block>) -> (r: Option<u32>)
    requires
        seebox_wf(*sb),
        pos_in_play(pos),
        forall|i: int| 0 <= i < seeable.len() ==> block_wf(#[trigger] seeable[i]),
    ensures
        r == spec_sense(*sb, pos, seeable@),
        r is None <==> !spec_is_detected(*sb, pos, seeable@),
        r matches Some(m) ==> m <= SCALE_ONE,
{
    if !is_detected(sb, pos, seeable) {
        return None;
    }
    let mut min: u32 = 0;
    let mut max: u32 = SCALE_ONE;
    let mut mid: u32 = SCALE_ONE / 2;
    let mut iter: u64 = 0;
    while iter < SEARCH_ITERS
        invariant
            0 <= iter <= SEARCH_ITERS,
            min <= max <= SCALE_ONE,
            mid == ((min + max) / 2) as u32,
            seebox_wf(*sb),
            pos_in_play(pos),
            forall|j: int| 0 <= j < seeable.len() ==> block_wf(#[trigger] seeable@[j]),
            spec_search(*sb, pos, seeable@, min, max, (SEARCH_ITERS - iter) as nat) == spec_search(
                *sb,
                pos,
                seeable@,
                0,
                SCALE_ONE,
                SEARCH_ITERS as nat,
            ),
        decreases SEARCH_ITERS - iter,
    {
        let sized_sb = sb.to_scale(mid);
        if is_detected(&sized_sb, pos, seeable) {
            max = mid;
        } else {
            min = mid;
        }
        mid = (min + max) / 2;
        iter = iter + 1;
    }
    Some(mid)
}


/// Two to the power `n`.
pub open spec fn two_pow(n: nat) -> int
    decreases n,
{
    if n == 0 {
        1
    } else {
        2 * two_pow((n - 1) as nat)
    }
}

/// One halving step of the search keeps the smallest detected scale
/// bracketed, and after all steps the bracket has shrunk to two.
proof fn lemma_search_brackets(
    sb: SeeBox,
    pos: Vec2,
    blocks: Seq<Block>,
    k0: u32,
    min: int,
    max: int,
    fuel: nat,
)
    requires
        forall|k: u32| k <= SCALE_ONE ==> (spec_detect_at(sb, pos, blocks, k) <==> k >= k0),
        0 <= min < max <= SCALE_ONE,
        max - min == two_pow(fuel + 1),
        k0 <= max,
        min < k0 || (min == 0 && k0 == 0),
    ensures
        ({
            let m = spec_search(sb, pos, blocks, min as u32, max as u32, fuel);
            k0 <= m + 1 && m <= k0 + 1
        }),
    decreases fuel,
{
    let mid = (min + max) / 2;
    if fuel == 0 {
        assert(two_pow(0) == 1);
        assert(two_pow(1) == 2);
    } else {
        assert(two_pow(fuel + 1) == 2 * two_pow(fuel));
        assert(two_pow(fuel) >= 1) by {
            lemma_two_pow_pos(fuel);
        }
        assert(mid - min == two_pow(fuel) && max - mid == two_pow(fuel));
        assert(0 <= mid <= SCALE_ONE);
        if spec_detect_at(sb, pos, blocks, mid as u32) {
            assert(mid as u32 >= k0);
            lemma_search_brackets(sb, pos, blocks, k0, min, mid, (fuel - 1) as nat);
        } else {
            assert(!(mid as u32 >= k0));
            lemma_search_brackets(sb, pos, blocks, k0, mid, max, (fuel - 1) as nat);
        }
    }
}

/// Powers of two are positive.
proof fn lemma_two_pow_pos(n: nat)
    ensures
        two_pow(n) >= 1,
    decreases n,
{
    if n > 0 {
        lemma_two_pow_pos((n - 1) as nat);
    }
}

/// Law: binary-search convergence.  If the blocks become visible exactly
/// from the scale `k0 / SCALE_ONE` on, the sensor's reading exists and
/// lies within one scale step of `k0`.
///
/// The threshold hypothesis is the detection form of the
/// monotonic-shrink property: [`lemma_to_scale_monotone`] proves that
/// the volumes themselves nest, and the hypothesis additionally asks
/// that detection respect that nesting, which the unit rounding of
/// rotated corners keeps from being a theorem here.
pub proof fn lemma_search_convergence(sb: SeeBox, pos: Vec2, blocks: Seq<Block>, k0: u32)
    requires
        seebox_wf(sb),
        k0 <= SCALE_ONE,
        forall|k: u32| k <= SCALE_ONE ==> (spec_detect_at(sb, pos, blocks, k) <==> k >= k0),
    ensures
        ({
            let m = spec_search(sb, pos, blocks, 0, SCALE_ONE, SEARCH_ITERS as nat);
            spec_sense(sb, pos, blocks) == Some(m) && k0 <= m + 1 && m <= k0 + 1
        }),
{
    lemma_to_scale_full(sb);
    assert(spec_detect_at(sb, pos, blocks, SCALE_ONE));
    assert(spec_is_detected(sb, pos, blocks));
    assert(two_pow(0) == 1);
    assert(two_pow(1) == 2);
    assert(two_pow(2) == 4);
    assert(two_pow(3) == 8);
    assert(two_pow(4) == 16);
    assert(two_pow(5) == 32);
    assert(two_pow(6) == 64);
    assert(two_pow(7) == 128);
    assert(two_pow(8) == 256);
    assert(two_pow(9) == 512);
    lemma_search_brackets(sb, pos, blocks, k0, 0, SCALE_ONE as int, (SEARCH_ITERS as nat));
}

/// Law: no detection yields no reading, never a reading of zero.  A
/// sensor whose full-scale volume sees nothing reads nothing; a world
/// without blocks and a zero-length sensor both read nothing.
pub proof fn lemma_no_detection_yields_none(sb: SeeBox, pos: Vec2, blocks: Seq<Block>)
    ensures
        (spec_sense(sb, pos, blocks) == Option::<u32>::None) == !spec_is_detected(sb, pos, blocks),
        blocks.len() == 0 ==> spec_sense(sb, pos, blocks) == Option::<u32>::None,
        sb.size.x == 0 ==> spec_sense(sb, pos, blocks) == Option::<u32>::None,
{
}

/// The sensor volume with its mirroring flag set from the agent's
/// facing direction.
pub open spec fn spec_faced(sb: SeeBox, dir: Dir) -> SeeBox {
    SeeBox { invert_x: dir == Dir::Left, ..sb }
}

/// Law: facing left mirrors the sensor volume, exactly.  Corner by
/// corner, the left-facing wedge is the reflection, across the
/// vertical axis through the agent, of the right-facing wedge with its
/// two corner rows swapped; rotated corners are rounded toward zero,
/// which commutes with the reflection.
pub proof fn lemma_facing_mirror(sb: SeeBox, trans: Vec2)
    requires
        seebox_wf(sb),
        pos_in_play(trans),
    ensures
        ({
            let l = spec_seebox_tris(spec_faced(sb, Dir::Left), trans);
            let r = spec_seebox_tris(spec_faced(sb, Dir::Right), trans);
            &&& l.0.a == l.1.a && l.0.c == l.1.b
            &&& r.0.a == r.1.a && r.0.c == r.1.b
            &&& l.0.a.y == r.1.c.y && l.0.a.x == 2 * trans.x - r.1.c.x
            &&& l.0.b.y == r.0.c.y && l.0.b.x == 2 * trans.x - r.0.c.x
            &&& l.0.c.y == r.0.b.y && l.0.c.x == 2 * trans.x - r.0.b.x
            &&& l.1.c.y == r.0.a.y && l.1.c.x == 2 * trans.x - r.0.a.x
        }),
{
    let rot = sb.angle;
    assert(0 <= sb.size.y as int / 2 && sb.size.y as int / 2 <= sb.size.y) by (nonlinear_arith)
        requires
            0 <= sb.size.y;
    let hy = (sb.size.y / 2) as i64;
    let pa = Vec2 { x: sb.size.x, y: hy };
    let pb = Vec2 { x: 0, y: hy };
    let pc = Vec2 { x: 0, y: (-hy) as i64 };
    let pd = Vec2 { x: sb.size.x, y: (-hy) as i64 };
    lemma_mirror_rotation(pa, rot);
    lemma_mirror_rotation(pb, rot);
    lemma_mirror_rotation(pc, rot);
    lemma_mirror_rotation(pd, rot);
    assert(Vec2 { x: pa.x, y: (-pa.y) as i64 } == pd);
    assert(Vec2 { x: pb.x, y: (-pb.y) as i64 } == pc);
    assert(Vec2 { x: pc.x, y: (-pc.y) as i64 } == pb);
    assert(Vec2 { x: pd.x, y: (-pd.y) as i64 } == pa);
    assert(spec_effective_rot(spec_faced(sb, Dir::Left)) == (Rotation {
        c: (-rot.c) as i64,
        s: rot.s,
    }));
    assert(spec_effective_rot(spec_faced(sb, Dir::Right)) == rot);
}

/// Update every sensor's mirroring flag from the agent's facing
/// direction, then overwrite its slot in the senses vector with its
/// fresh reading against the blocks.  Slots that no sensor owns keep
/// their old value.
pub fn eye_see(
    eyes: &mut Vec<EyeBundle>,
    senses: &mut Senses,
    agent_pos: Vec2,
    dir: Dir,
    seeable: &Vec<Block>,
)
    requires
        forall|i: int| 0 <= i < old(eyes).len() ==> seebox_wf((#[trigger] old(eyes)[i]).seebox),
        forall|i: int| 0 <= i < old(eyes).len() ==> (#[trigger] old(eyes)[i]).eye.ix < old(
            senses,
        ).data.len(),
        forall|i: int, j: int|
            #![trigger old(eyes)[i], old(eyes)[j]]
            0 <= i < j < old(eyes).len() ==> old(eyes)[i].eye.ix != old(eyes)[j].eye.ix,
        pos_in_play(agent_pos),
        forall|i: int| 0 <= i < seeable.len() ==> block_wf(#[trigger] seeable[i]),
    ensures
        final(eyes).len() == old(eyes).len(),
        forall|i: int| 0 <= i < old(eyes).len() ==> #[trigger] final(eyes)[i] == (EyeBundle {
            eye: old(eyes)[i].eye,
            seebox: spec_faced(old(eyes)[i].seebox, dir),
        }),
        final(senses).data.len() == old(senses).data.len(),
        forall|i: int| 0 <= i < old(eyes).len() ==> final(senses).data[(#[trigger] old(
            eyes,
        )[i]).eye.ix as int] == spec_sense(spec_faced(old(eyes)[i].seebox, dir), agent_pos, seeable@),
        forall|s: int|
            0 <= s < old(senses).data.len() && (forall|i: int| 0 <= i < old(eyes).len() ==> (
            #[trigger] old(eyes)[i]).eye.ix != s) ==> #[trigger] final(senses).data[s] == old(
                senses,
            ).data[s],
{
    let n = eyes.len();
    let mut i: usize = 0;
    while i < n
        invariant
            n == eyes.len() == old(eyes).len(),
            0 <= i <= n,
            senses.data.len() == old(senses).data.len(),
            pos_in_play(agent_pos),
            forall|j: int| 0 <= j < old(eyes).len() ==> seebox_wf((#[trigger] old(eyes)[j]).seebox),
            forall|j: int| 0 <= j < old(eyes).len() ==> (#[trigger] old(eyes)[j]).eye.ix < old(
                senses,
            ).data.len(),
            forall|j: int, k: int|
                #![trigger old(eyes)[j], old(eyes)[k]]
                0 <= j < k < old(eyes).len() ==> old(eyes)[j].eye.ix != old(eyes)[k].eye.ix,
            forall|j: int| 0 <= j < seeable.len() ==> block_wf(#[trigger] seeable@[j]),
            forall|j: int| i <= j < n ==> #[trigger] eyes[j] == old(eyes)[j],
            forall|j: int| 0 <= j < i ==> #[trigger] eyes[j] == (EyeBundle {
                eye: old(eyes)[j].eye,
                seebox: spec_faced(old(eyes)[j].seebox, dir),
            }),
            forall|j: int| 0 <= j < i ==> senses.data[(#[trigger] old(eyes)[j]).eye.ix as int]
                == spec_sense(spec_faced(old(eyes)[j].seebox, dir), agent_pos, seeable@),
            forall|s: int|
                0 <= s < old(senses).data.len() && (forall|j: int| 0 <= j < i ==> (#[trigger] old(
                    eyes,
                )[j]).eye.ix != s) ==> #[trigger] senses.data[s] == old(senses).data[s],
        decreases n - i,
    {
        let eb = eyes[i];
        assert(eb == old(eyes)[i as int]);
        let nsb = SeeBox {
            pos: eb.seebox.pos,
            size: eb.seebox.size,
            angle: eb.seebox.angle,
            invert_x: matches!(dir, Dir::Left),
        };
        assert(nsb == spec_faced(old(eyes)[i as int].seebox, dir));
        eyes.set(i, EyeBundle { eye: eb.eye, seebox: nsb });
        let r = compute_sensor_reading(&nsb, agent_pos, seeable);
        let ix = eb.eye.ix;
        senses.data.set(ix, r);
        i = i + 1;
    }
}

} // verus!

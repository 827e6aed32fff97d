//! Static world geometry: sight-blocking obstacle blocks.

use vstd::prelude::*;

use crate::collisions::Vec2;
use crate::physics::{hitbox_wf, pt_in_world, Hitbox};

verus! {

/// A static, sight-blocking obstacle: an axis-aligned rectangle that
/// never moves.
#[derive(Clone, Copy, PartialEq, Eq, Structural, Debug)]
pub struct Block {
    pub hitbox: Hitbox,
    pub pos: Vec2,
}

/// The block's rectangle is well formed and placed inside the world.
pub open spec fn block_wf(b: Block) -> bool {
    hitbox_wf(b.hitbox) && pt_in_world(b.pos)
}

impl Block {
    /// A block centered at `pos` with the given width and height.
    pub fn new(pos: Vec2, size: Vec2) -> (r: Block)
        requires
            pt_in_world(pos),
            pt_in_world(size),
            size.x >= 0,
            size.y >= 0,
        ensures
            r == (Block {
                hitbox: Hitbox { pos: Vec2 { x: 0, y: 0 }, size },
                pos,
            }),
            block_wf(r),
    {
        Block { hitbox: Hitbox { pos: Vec2 { x: 0, y: 0 }, size }, pos }
    }
}

} // verus!

//! Block: static terrain.  Hard blocks are immortal; soft blocks burn
//! away once fire reaches them.

use crate::actors::fire::{spec_fire_at, Fire};
use crate::actors::{ActorId, Sprite};
use crate::geometry::{spec_align, spec_collides, Point};
use vstd::prelude::*;

verus! {

/// Countdown value of a hard block; it is never decremented, and any
/// smaller countdown marks a block as soft.
pub const HARD_TTL: i32 = 30;

/// Starting countdown of a soft block.
pub const SOFT_TTL: i32 = 28;

/// A block of terrain on a grid cell.
#[derive(Clone, Copy, Debug, PartialEq, Eq, Structural)]
pub struct Block {
    /// Id to distinguish each actor.
    pub actor_id: ActorId,
    /// Current visual state, derived from the countdown.
    pub action: u32,
    /// Time to live; `HARD_TTL` means hard, anything below means soft.
    pub ttl: i32,
    /// Current location of the block, grid-aligned.
    pub pnt: Point,
}

/// The first block sitting exactly on the cell `(cx, cy)`, if any.
pub open spec fn spec_block_at_cell(blocks: Seq<Block>, cx: int, cy: int) -> Option<Block>
    decreases blocks.len(),
{
    if blocks.len() == 0 {
        None
    } else if blocks[0].pnt.x == cx && blocks[0].pnt.y == cy {
        Some(blocks[0])
    } else {
        spec_block_at_cell(blocks.drop_first(), cx, cy)
    }
}

/// Whether some block sits exactly at `pnt`.
pub open spec fn spec_some_block_at(blocks: Seq<Block>, pnt: Point) -> bool {
    exists|i: int| 0 <= i < blocks.len() && blocks[i].pnt == pnt
}

/// The first block sitting exactly at `pnt`, if any.
pub fn block_at(blocks: &Vec<Block>, pnt: Point) -> (r: Option<Block>)
    ensures
        r == spec_block_at_cell(blocks@, pnt.x as int, pnt.y as int),
{
    let mut i: usize = 0;
    proof {
        assert(blocks@.skip(0) =~= blocks@);
    }
    while i < blocks.len()
        invariant
            i <= blocks.len(),
            spec_block_at_cell(blocks@, pnt.x as int, pnt.y as int) == spec_block_at_cell(
                blocks@.skip(i as int),
                pnt.x as int,
                pnt.y as int,
            ),
        decreases blocks.len() - i,
    {
        proof {
            assert(blocks@.skip(i as int)[0] == blocks@[i as int]);
            assert(blocks@.skip(i as int).drop_first() =~= blocks@.skip(i as int + 1));
        }
        if blocks[i].pnt == pnt {
            return Some(blocks[i]);
        }
        i = i + 1;
    }
    proof {
        assert(blocks@.skip(i as int) =~= Seq::<Block>::empty());
    }
    None
}

/// Whether some block's square overlaps the square at `p`.
pub open spec fn spec_block_touches(blocks: Seq<Block>, p: Point) -> bool {
    exists|i: int| 0 <= i < blocks.len() && spec_collides(blocks[i].pnt, p)
}

/// Whether some block's square overlaps the square at `p`.
pub fn block_touches(blocks: &Vec<Block>, p: Point) -> (r: bool)
    ensures
        r == spec_block_touches(blocks@, p),
{
    let mut i: usize = 0;
    while i < blocks.len()
        invariant
            i <= blocks.len(),
            forall|j: int| 0 <= j < i ==> !spec_collides(blocks@[j].pnt, p),
        decreases blocks.len() - i,
    {
        if blocks[i].pnt.collides_with(p) {
            return true;
        }
        i = i + 1;
    }
    false
}

impl Block {
    /// The block that `build` makes: snapped to the grid, with the
    /// given countdown and visual state.
    pub open spec fn spec_build(x: i32, y: i32, ttl: i32, action: u32) -> Block {
        Block { actor_id: ActorId::Block, action, ttl, pnt: spec_align(Point { x, y }) }
    }

    /// A block between ticks: hard, or soft with some burn time left.
    pub open spec fn wf(&self) -> bool {
        self.ttl == HARD_TTL || 1 <= self.ttl <= SOFT_TTL
    }

    /// Whether the block is soft (destructible).
    pub open spec fn spec_is_soft(&self) -> bool {
        self.ttl < HARD_TTL
    }

    /// A new block; blocks are hard unless made soft explicitly.
    pub fn new(x: i32, y: i32) -> (r: Self)
        ensures
            r == Block::spec_build(x, y, HARD_TTL, 0),
    {
        Block::hard(x, y)
    }

    /// An indestructible block at the grid cell nearest `(x, y)`.
    pub fn hard(x: i32, y: i32) -> (r: Self)
        ensures
            r == Block::spec_build(x, y, HARD_TTL, 0),
            r.wf(),
    {
        Block::build(x, y, HARD_TTL, 0)
    }

    /// A destructible block at the grid cell nearest `(x, y)`.
    pub fn soft(x: i32, y: i32) -> (r: Self)
        ensures
            r == Block::spec_build(x, y, SOFT_TTL, 1),
            r.wf(),
    {
        Block::build(x, y, SOFT_TTL, 1)
    }

    /// Whether the block is soft (destructible).
    pub fn is_soft(&self) -> (r: bool)
        ensures
            r == self.spec_is_soft(),
    {
        self.ttl < HARD_TTL
    }

    /// Whether the block still stands.
    pub fn alive(&self) -> (r: bool)
        ensures
            r == (self.ttl > 0),
    {
        self.ttl > 0
    }

    /// The draw command for this block.
    pub fn draw(&self) -> (s: Sprite)
        ensures
            s == (Sprite {
                x: self.pnt.x,
                y: self.pnt.y,
                actor_id: self.actor_id,
                action: self.action,
            }),
    {
        Sprite { x: self.pnt.x, y: self.pnt.y, actor_id: self.actor_id, action: self.action }
    }

    /// The block one tick later.  A hard block never changes.  A soft
    /// block starts burning the tick a fire stands on its cell, and
    /// from then on burns down by one every tick, fire or no fire;
    /// its visual state follows the countdown.
    pub open spec fn stepped(self, fires: Seq<Fire>) -> Block {
        if !self.spec_is_soft() {
            self
        } else {
            let t = if self.ttl == SOFT_TTL {
                if spec_fire_at(fires, self.pnt) {
                    self.ttl - 1
                } else {
                    self.ttl as int
                }
            } else {
                self.ttl - 1
            };
            Block { ttl: t as i32, action: ((15 - t / 2)) as u32, ..self }
        }
    }

    /// Advance the block by one tick.
    pub fn update(&mut self, _delta: i32, fires: &Vec<Fire>)
        requires
            old(self).wf(),
        ensures
            *final(self) == old(self).stepped(fires@),
            final(self).ttl <= old(self).ttl,
            final(self).ttl == HARD_TTL || 0 <= final(self).ttl <= SOFT_TTL,
            final(self).pnt == old(self).pnt,
    {
        if !self.is_soft() {
            return ;
        }
        if self.ttl == SOFT_TTL {
            if crate::actors::fire::fire_at(fires, self.pnt) {
                self.ttl = self.ttl - 1;
            }
        } else {
            self.ttl = self.ttl - 1;
        }
        self.action = (15 - self.ttl / 2) as u32;
    }

    /// Build a block at the grid cell nearest `(x, y)`.
    fn build(x: i32, y: i32, ttl: i32, action: u32) -> (r: Block)
        ensures
            r == Block::spec_build(x, y, ttl, action),
    {
        let pnt = Point::new(x, y).align_to_grid();
        Block { actor_id: ActorId::Block, action, ttl, pnt }
    }
}

} // verus!

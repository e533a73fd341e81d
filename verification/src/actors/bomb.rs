//! Bomb: placed by a player, counts down on elapsed time, and chains
//! quickly when caught in another blast.

use crate::actors::fire::{spec_fire_at, Fire};
use crate::actors::{ActorId, Sprite};
use crate::geometry::{mag, spec_align, Point, COORD_LIMIT};
use vstd::prelude::*;

verus! {

/// Starting countdown of a freshly placed bomb.
pub const BOMB_TTL: i32 = 300;

/// Countdown a bomb is capped to when fire stands on its cell, so that
/// bombs caught in a blast detonate almost at once.
pub const CHAIN_TTL: i32 = 5;

/// Placement coordinates within this bound give a well-formed bomb.
pub const BOMB_XY_LIMIT: i32 = COORD_LIMIT + 100;

/// Positions of bombs stay within this bound: the grid snap of a
/// placement coordinate within `BOMB_XY_LIMIT`.
pub const BOMB_POS_LIMIT: i32 = COORD_LIMIT + 200;

/// A bomb ticking toward its explosion.
#[derive(Clone, Copy, Debug, PartialEq, Eq, Structural)]
pub struct Bomb {
    /// Id to distinguish each actor.
    pub actor_id: ActorId,
    /// Current visual state of the bomb.
    pub action: u32,
    /// Time to live.
    pub ttl: i32,
    /// Id of the player who placed the bomb.
    pub owner_id: u32,
    /// Current location of the bomb, grid-aligned at placement.
    pub pnt: Point,
    /// Power of the bomb: its blast radius in grid cells.
    pub power: u8,
}

/// Whether some bomb sits exactly at `pnt`.
pub open spec fn spec_bomb_at(bombs: Seq<Bomb>, pnt: Point) -> bool {
    exists|i: int| 0 <= i < bombs.len() && bombs[i].pnt == pnt
}

/// Whether some bomb sits exactly at `pnt`.
pub fn bomb_at(bombs: &Vec<Bomb>, pnt: Point) -> (r: bool)
    ensures
        r == spec_bomb_at(bombs@, pnt),
{
    let mut i: usize = 0;
    while i < bombs.len()
        invariant
            i <= bombs.len(),
            forall|j: int| 0 <= j < i ==> bombs@[j].pnt != pnt,
        decreases bombs.len() - i,
    {
        if bombs[i].pnt == pnt {
            return true;
        }
        i = i + 1;
    }
    false
}

impl Bomb {
    /// The bomb that `new` builds.
    pub open spec fn spec_new(owner_id: u32, x: i32, y: i32, power: u8) -> Bomb {
        Bomb {
            actor_id: ActorId::Bomb,
            action: 0,
            ttl: BOMB_TTL,
            owner_id,
            pnt: spec_align(Point { x, y }),
            power,
        }
    }

    /// A bomb between ticks: the countdown within its starting range,
    /// and the position within the envelope that explosion rays can
    /// be walked from in machine integers.
    pub open spec fn wf(&self) -> bool {
        &&& 0 <= self.ttl <= BOMB_TTL
        &&& mag(self.pnt.x as int) <= BOMB_POS_LIMIT
        &&& mag(self.pnt.y as int) <= BOMB_POS_LIMIT
    }

    /// A new bomb owned by player `owner_id`, snapped to the grid cell
    /// nearest `(x, y)`, with blast radius `power`.
    pub fn new(owner_id: u32, x: i32, y: i32, power: u8) -> (r: Self)
        ensures
            r == Bomb::spec_new(owner_id, x, y, power),
            -BOMB_XY_LIMIT <= x <= BOMB_XY_LIMIT && -BOMB_XY_LIMIT <= y <= BOMB_XY_LIMIT
                ==> r.wf(),
    {
        proof {
            crate::geometry::lemma_align_coord_bounds(x as int);
            crate::geometry::lemma_align_coord_bounds(y as int);
            crate::geometry::lemma_align_coord_fits(x as int);
            crate::geometry::lemma_align_coord_fits(y as int);
        }
        Bomb {
            actor_id: ActorId::Bomb,
            action: 0,
            ttl: BOMB_TTL,
            owner_id,
            pnt: Point::new(x, y).align_to_grid(),
            power,
        }
    }

    /// Whether the bomb has not yet gone off.
    pub fn alive(&self) -> (r: bool)
        ensures
            r == (self.ttl > 0),
    {
        self.ttl > 0
    }

    /// The draw command for this bomb.
    pub fn draw(&self) -> (s: Sprite)
        ensures
            s == (Sprite {
                x: self.pnt.x,
                y: self.pnt.y,
                actor_id: self.actor_id,
                action: self.action,
            }),
    {
        Sprite { x: self.pnt.x, y: self.pnt.y, actor_id: self.actor_id, action: self.action }
    }

    /// The bomb one tick later: the countdown drops by the elapsed
    /// time in ten-millisecond steps, floored at zero; a fire on the
    /// bomb's cell caps it to `CHAIN_TTL`; the visual state follows
    /// the burnt-down share of the full countdown.
    pub open spec fn stepped(self, fires: Seq<Fire>, delta: int) -> Bomb {
        let t1 = if self.ttl > delta / 10 {
            self.ttl - delta / 10
        } else {
            0int
        };
        let t2 = if spec_fire_at(fires, self.pnt) && t1 > CHAIN_TTL {
            CHAIN_TTL as int
        } else {
            t1
        };
        Bomb { ttl: t2 as i32, action: ((BOMB_TTL - t2) * 15 / BOMB_TTL as int) as u32, ..self }
    }

    /// Advance the bomb by one tick of `delta` elapsed milliseconds.
    ///
    /// The countdown never increases and never drops below zero.
    pub fn update(&mut self, delta: i32, fires: &Vec<Fire>)
        requires
            old(self).wf(),
            delta >= 0,
        ensures
            *final(self) == old(self).stepped(fires@, delta as int),
            final(self).ttl <= old(self).ttl,
            0 <= final(self).ttl <= BOMB_TTL,
            final(self).wf(),
            final(self).pnt == old(self).pnt,
    {
        let fire_exists = crate::actors::fire::fire_at(fires, self.pnt);
        self.ttl = if self.ttl > delta / 10 {
            self.ttl - delta / 10
        } else {
            0
        };
        if fire_exists && self.ttl > CHAIN_TTL {
            self.ttl = CHAIN_TTL;
        }
        self.action = (BOMB_TTL - self.ttl) as u32 * 15 / BOMB_TTL as u32;
    }
}

} // verus!

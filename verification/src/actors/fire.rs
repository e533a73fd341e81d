//! Fire: the short-lived flame an exploding bomb leaves on a cell.

use crate::actors::{ActorId, Sprite};
use crate::geometry::{spec_collides, Point};
use vstd::prelude::*;

verus! {

/// Lifetime of a freshly spawned fire, in ticks.
pub const FIRE_TTL: i32 = 20;

/// Fire left by an explosion.  It decays by one every tick and dies
/// when its countdown reaches zero.
#[derive(Clone, Copy, Debug, PartialEq, Eq, Structural)]
pub struct Fire {
    /// Id to distinguish each actor.
    pub actor_id: ActorId,
    /// Current visual state, derived from the remaining lifetime.
    pub action: u32,
    /// Time to live.
    pub ttl: i32,
    /// Current location of the fire.
    pub pnt: Point,
}

/// Whether some fire burns exactly at `pnt`.
pub open spec fn spec_fire_at(fires: Seq<Fire>, pnt: Point) -> bool {
    exists|i: int| 0 <= i < fires.len() && fires[i].pnt == pnt
}

/// Whether some fire burns exactly at `pnt`.
pub fn fire_at(fires: &Vec<Fire>, pnt: Point) -> (r: bool)
    ensures
        r == spec_fire_at(fires@, pnt),
{
    let mut i: usize = 0;
    while i < fires.len()
        invariant
            i <= fires.len(),
            forall|j: int| 0 <= j < i ==> fires@[j].pnt != pnt,
        decreases fires.len() - i,
    {
        if fires[i].pnt == pnt {
            return true;
        }
        i = i + 1;
    }
    false
}

/// Whether the square at `p` overlaps some fire's square.
pub open spec fn spec_fire_touches(fires: Seq<Fire>, p: Point) -> bool {
    exists|i: int| 0 <= i < fires.len() && spec_collides(p, fires[i].pnt)
}

/// Whether the square at `p` overlaps some fire's square.
pub fn fire_touches(fires: &Vec<Fire>, p: Point) -> (r: bool)
    ensures
        r == spec_fire_touches(fires@, p),
{
    let mut i: usize = 0;
    while i < fires.len()
        invariant
            i <= fires.len(),
            forall|j: int| 0 <= j < i ==> !spec_collides(p, fires@[j].pnt),
        decreases fires.len() - i,
    {
        if p.collides_with(fires[i].pnt) {
            return true;
        }
        i = i + 1;
    }
    false
}

impl Fire {
    /// The fire that `new` builds at `(x, y)`.
    pub open spec fn spec_new(x: i32, y: i32) -> Fire {
        Fire { actor_id: ActorId::Fire, action: 0, ttl: FIRE_TTL, pnt: Point { x, y } }
    }

    /// A live fire between ticks: its countdown is still running.
    pub open spec fn wf(&self) -> bool {
        1 <= self.ttl <= FIRE_TTL
    }

    /// A fresh fire at `(x, y)`, with the full lifetime ahead of it.
    pub fn new(x: i32, y: i32) -> (r: Self)
        ensures
            r == Fire::spec_new(x, y),
            r.wf(),
    {
        Fire { actor_id: ActorId::Fire, action: 0, ttl: FIRE_TTL, pnt: Point::new(x, y) }
    }

    /// Whether the fire is still burning.
    pub fn alive(&self) -> (r: bool)
        ensures
            r == (self.ttl > 0),
    {
        self.ttl > 0
    }

    /// The draw command for this fire.
    pub fn draw(&self) -> (s: Sprite)
        ensures
            s == (Sprite {
                x: self.pnt.x,
                y: self.pnt.y,
                actor_id: self.actor_id,
                action: self.action,
            }),
    {
        Sprite { x: self.pnt.x, y: self.pnt.y, actor_id: self.actor_id, action: self.action }
    }

    /// The fire one tick later: the visual state advances with the
    /// burnt-down share of the lifetime, and the countdown drops by
    /// one.
    pub open spec fn stepped(self) -> Fire {
        Fire {
            action: ((FIRE_TTL - self.ttl) * 15 / FIRE_TTL as int) as u32,
            ttl: (self.ttl - 1) as i32,
            ..self
        }
    }

    /// Advance the fire by one tick.
    pub fn update(&mut self, _delta: i32)
        requires
            old(self).wf(),
        ensures
            *final(self) == old(self).stepped(),
            final(self).ttl == old(self).ttl - 1,
            0 <= final(self).ttl < FIRE_TTL,
    {
        self.action = (FIRE_TTL as u32 - self.ttl as u32) * 15 / FIRE_TTL as u32;
        self.ttl = self.ttl - 1;
    }
}

} // verus!

//! Power-up: an item that bumps a player stat when a player stands
//! exactly on its cell; a blast without cover destroys it.

use crate::actors::block::{spec_some_block_at, Block};
use crate::actors::fire::{spec_fire_at, Fire};
use crate::actors::player::Player;
use crate::actors::{ActorId, Sprite};
use crate::geometry::{spec_align, Point};
use vstd::prelude::*;

verus! {

/// Starting countdown of a power-up; it is used as a consumed latch,
/// not as a timer.
pub const POWER_TTL: i32 = 15;

/// A power-up item waiting on a grid cell.
#[derive(Clone, Copy, Debug, PartialEq, Eq, Structural)]
pub struct Power {
    /// Id to distinguish each actor; also selects the stat the item
    /// carries.
    pub actor_id: ActorId,
    /// Current visual state of the item.
    pub action: u32,
    /// Time to live; dropped to zero on pickup or destruction.
    pub ttl: i32,
    /// Current location of the power-up, grid-aligned.
    pub pnt: Point,
}

/// Whether some player's grid-aligned position equals `pnt`.
pub open spec fn spec_player_on(players: Seq<Player>, pnt: Point) -> bool {
    exists|i: int| 0 <= i < players.len() && spec_align(players[i].pnt) == pnt
}

/// The players after every one standing exactly on `pnt` has picked
/// up the item `aid`.
pub open spec fn spec_players_picked(players: Seq<Player>, pnt: Point, aid: ActorId) -> Seq<
    Player,
> {
    players.map(
        |i: int, p: Player|
            if spec_align(p.pnt) == pnt {
                p.with_item(aid)
            } else {
                p
            },
    )
}

impl Power {
    /// The power-up that `new` builds.
    pub open spec fn spec_new(x: i32, y: i32, actor_id: ActorId) -> Power {
        Power { actor_id, action: 0, ttl: POWER_TTL, pnt: spec_align(Point { x, y }) }
    }

    /// A power-up between ticks: not yet consumed.
    pub open spec fn wf(&self) -> bool {
        1 <= self.ttl <= POWER_TTL
    }

    /// A new item of kind `actor_id` at the grid cell nearest
    /// `(x, y)`.
    pub fn new(x: i32, y: i32, actor_id: ActorId) -> (r: Self)
        ensures
            r == Power::spec_new(x, y, actor_id),
            r.wf(),
    {
        Power { actor_id, action: 0, ttl: POWER_TTL, pnt: Point::new(x, y).align_to_grid() }
    }

    /// A power-up of a random kind at the grid cell nearest `(x, y)`:
    /// whatever the draw, one of the three stat items.
    pub fn random_item(x: i32, y: i32) -> (r: Self)
        ensures
            r.pnt == spec_align(Point { x, y }),
            r.ttl == POWER_TTL,
            r.action == 0,
            r.actor_id == ActorId::BombUp || r.actor_id == ActorId::BombPowerUp || r.actor_id
                == ActorId::SpeedUp,
            r.wf(),
    {
        let roll: u32 = rand::random::<u32>();
        let actor_id = if roll % 3 == 0 {
            ActorId::BombUp
        } else if roll % 3 == 1 {
            ActorId::BombPowerUp
        } else {
            ActorId::SpeedUp
        };
        Power::new(x, y, actor_id)
    }

    /// Whether the item is still on the field.
    pub fn alive(&self) -> (r: bool)
        ensures
            r == (self.ttl > 0),
    {
        self.ttl > 0
    }

    /// The draw command for this power-up.
    pub fn draw(&self) -> (s: Sprite)
        ensures
            s == (Sprite {
                x: self.pnt.x,
                y: self.pnt.y,
                actor_id: self.actor_id,
                action: self.action,
            }),
    {
        Sprite { x: self.pnt.x, y: self.pnt.y, actor_id: self.actor_id, action: self.action }
    }

    /// The power-up one tick later: consumed when a player stands on
    /// its cell, destroyed when fire reaches the cell and no block
    /// shields it; the visual state follows the countdown.
    pub open spec fn stepped(self, players: Seq<Player>, fires: Seq<Fire>, blocks: Seq<Block>) -> Power {
        let t1 = if spec_player_on(players, self.pnt) {
            0int
        } else {
            self.ttl as int
        };
        let t2 = if spec_fire_at(fires, self.pnt) && !spec_some_block_at(blocks, self.pnt) {
            0int
        } else {
            t1
        };
        Power { ttl: t2 as i32, action: (15 - t2) as u32, ..self }
    }

    /// Advance the power-up by one tick: hand the item to every
    /// player standing on its cell, then check for an uncovered
    /// blast.
    pub fn update(
        &mut self,
        _delta: i32,
        players: &mut Vec<Player>,
        fires: &Vec<Fire>,
        blocks: &Vec<Block>,
    )
        requires
            old(self).wf(),
        ensures
            *final(self) == old(self).stepped(old(players)@, fires@, blocks@),
            final(players)@ == spec_players_picked(old(players)@, old(self).pnt, old(self).actor_id),
            0 <= final(self).ttl <= POWER_TTL,
            final(self).pnt == old(self).pnt,
            final(self).actor_id == old(self).actor_id,
    {
        let ghost players0 = players@;
        let mut i: usize = 0;
        while i < players.len()
            invariant
                i <= players.len(),
                players@.len() == players0.len(),
                old(self).wf(),
                self.actor_id == old(self).actor_id,
                self.pnt == old(self).pnt,
                self.action == old(self).action,
                forall|j: int|
                    0 <= j < i ==> players@[j] == (if spec_align(players0[j].pnt) == old(self).pnt {
                        players0[j].with_item(old(self).actor_id)
                    } else {
                        players0[j]
                    }),
                forall|j: int| i <= j < players@.len() ==> players@[j] == players0[j],
                self.ttl == (if spec_player_on(players0.take(i as int), old(self).pnt) {
                    0int
                } else {
                    old(self).ttl as int
                }),
            decreases players.len() - i,
        {
            proof {
                lemma_player_on_take_step(players0, old(self).pnt, i as int);
            }
            let mut p = players[i];
            if p.pnt.align_to_grid() == self.pnt {
                p.push_item(self.actor_id);
                self.ttl = 0;
            }
            players[i] = p;
            i = i + 1;
        }
        proof {
            assert(players0.take(players0.len() as int) =~= players0);
            assert(players@ =~= spec_players_picked(players0, old(self).pnt, old(self).actor_id));
        }
        let fire_exists = crate::actors::fire::fire_at(fires, self.pnt);
        let block_exists = block_at_exact(blocks, self.pnt);
        if fire_exists && !block_exists {
            self.ttl = 0;
        }
        self.action = (15 - self.ttl) as u32;
    }
}

/// Extending the scanned prefix by one player adds exactly that
/// player's cell to the pickup test.
proof fn lemma_player_on_take_step(players: Seq<Player>, pnt: Point, i: int)
    requires
        0 <= i < players.len(),
    ensures
        spec_player_on(players.take(i + 1), pnt) == (spec_player_on(players.take(i), pnt)
            || spec_align(players[i].pnt) == pnt),
{
    let a = players.take(i + 1);
    let b = players.take(i);
    if spec_player_on(a, pnt) {
        let k = choose|k: int| 0 <= k < a.len() && #[trigger] spec_align(a[k].pnt) == pnt;
        if k < i {
            assert(b[k] == a[k]);
            assert(spec_player_on(b, pnt));
        } else {
            assert(a[i] == players[i]);
        }
    }
    if spec_player_on(b, pnt) {
        let k = choose|k: int| 0 <= k < b.len() && #[trigger] spec_align(b[k].pnt) == pnt;
        assert(a[k] == b[k]);
        assert(spec_player_on(a, pnt));
    }
    if spec_align(players[i].pnt) == pnt {
        assert(a[i] == players[i]);
        assert(spec_player_on(a, pnt));
    }
}

/// Whether some block sits exactly at `pnt`.
fn block_at_exact(blocks: &Vec<Block>, pnt: Point) -> (r: bool)
    ensures
        r == spec_some_block_at(blocks@, pnt),
{
    let mut i: usize = 0;
    while i < blocks.len()
        invariant
            i <= blocks.len(),
            forall|j: int| 0 <= j < i ==> blocks@[j].pnt != pnt,
        decreases blocks.len() - i,
    {
        if blocks[i].pnt == pnt {
            return true;
        }
        i = i + 1;
    }
    false
}

} // verus!

//! Player: reads its input slot, moves with grid steering, places
//! bombs, picks up items, and dies to fire.

use crate::actors::block::{spec_block_touches, Block};
use crate::actors::bomb::{spec_bomb_at, Bomb};
use crate::actors::fire::{spec_fire_touches, Fire};
use crate::actors::{ActorId, Sprite};
use crate::geometry::{
    in_bounds, lemma_adjust_bounded, lemma_align_coord_bounds, lemma_align_coord_fits,
    lemma_mul_mag_bound, mag, pt, spec_adjust, spec_align, spec_cardinal, spec_collides,
    spec_length, Direction, Point, COORD_LIMIT,
};
use crate::keyboard::KeyState;
use crate::MAX_DELTA;
use vstd::prelude::*;

verus! {

/// Countdown set on death.  It heals back by one per tick, and the
/// player is inert until it exceeds zero again.
pub const DEATH_TTL: i32 = -60 * 8;

/// Visual action code of the death pose.
pub const DEATH_ACTION: u32 = 15 * 1000;

/// Spawn positions within this bound snap to a grid point inside the
/// coordinate envelope.
pub const SPAWN_LIMIT: i32 = COORD_LIMIT - 90;

/// A player: the only entity not locked to the grid while it moves.
#[derive(Clone, Copy, Debug, PartialEq, Eq, Structural)]
pub struct Player {
    /// Id to distinguish each actor.
    pub actor_id: ActorId,
    /// Id to distinguish each player.
    pub id: u32,
    /// Current visual action code, in thousandths of a sprite frame.
    pub action: u32,
    /// Time to live; kept at 1 while alive, deeply negative and
    /// healing while dead.
    pub ttl: i32,
    /// Current location of the player.
    pub pnt: Point,
    /// Current bomb power of the player.
    pub bomb_power: u8,
    /// Current maximum number of simultaneous bombs.
    pub max_num_bombs: u8,
    /// Current movement speed.
    pub speed: u8,
}

/// Raw horizontal displacement from the held keys; when both are held,
/// right wins.
pub open spec fn raw_dx(ks: KeyState, speed: int) -> int {
    if ks.right {
        speed
    } else if ks.left {
        -speed
    } else {
        0
    }
}

/// Raw vertical displacement from the held keys; when both are held,
/// down wins.
pub open spec fn raw_dy(ks: KeyState, speed: int) -> int {
    if ks.down {
        speed
    } else if ks.up {
        -speed
    } else {
        0
    }
}

/// How many of the bombs belong to player `id`.
pub open spec fn spec_owned(bombs: Seq<Bomb>, id: u32) -> int
    decreases bombs.len(),
{
    if bombs.len() == 0 {
        0
    } else {
        spec_owned(bombs.drop_last(), id) + if bombs.last().owner_id == id {
            1int
        } else {
            0int
        }
    }
}

/// Whether a bomb vetoes the move from `cur` to `new`: it overlaps the
/// tentative position without overlapping the current one.  A player
/// may walk off the bomb they stand on, but not onto another one.
pub open spec fn spec_bomb_veto(bombs: Seq<Bomb>, cur: Point, new: Point) -> bool {
    exists|i: int|
        0 <= i < bombs.len() && !spec_collides(cur, bombs[i].pnt) && spec_collides(
            new,
            bombs[i].pnt,
        )
}

/// The visual action code after moving by `dxy`: each cardinal
/// direction owns a base code, and the frame within the direction
/// advances with the distance moved, cycling every 3000.
pub open spec fn spec_action_after(action: u32, dxy: Point) -> int {
    match spec_cardinal(dxy) {
        Some(d) => {
            let base: int = match d {
                Direction::S => 0,
                Direction::W => 3000,
                Direction::E => 6000,
                Direction::N => 9000,
            };
            base + (action % 3000 + spec_length(dxy) * 50) % 3000
        },
        None => action as int,
    }
}

/// A stat bumped by one, capped at `cap`.
pub open spec fn bump(v: u8, cap: u8) -> u8 {
    if v < cap {
        (v + 1) as u8
    } else {
        cap
    }
}

/// Which sprite a player id maps to.
pub open spec fn spec_actor_id(id: u32) -> ActorId {
    if id == 0 {
        ActorId::Player1
    } else if id == 1 {
        ActorId::Player2
    } else if id == 2 {
        ActorId::Player3
    } else if id == 3 {
        ActorId::Player4
    } else {
        ActorId::Player1
    }
}

impl Player {
    /// The player that `new` builds.
    pub open spec fn spec_new(id: u32, x: i32, y: i32) -> Player {
        Player {
            actor_id: spec_actor_id(id),
            id,
            action: 1000,
            ttl: 1,
            pnt: spec_align(Point { x, y }),
            bomb_power: 2,
            max_num_bombs: 1,
            speed: 1,
        }
    }

    /// A player between ticks: inside the coordinate envelope, the
    /// countdown between a fresh death and alive, the action code at
    /// most the death pose, and the three stats within their caps.
    pub open spec fn wf(&self) -> bool {
        &&& in_bounds(self.pnt)
        &&& DEATH_TTL <= self.ttl <= 1
        &&& self.action <= DEATH_ACTION
        &&& 1 <= self.bomb_power <= 8
        &&& 1 <= self.max_num_bombs <= 8
        &&& 1 <= self.speed <= 30
    }

    /// A new player with the given id, spawned at the grid cell
    /// nearest `(x, y)`.
    pub fn new(id: u32, x: i32, y: i32) -> (r: Self)
        ensures
            r == Player::spec_new(id, x, y),
            -SPAWN_LIMIT <= x <= SPAWN_LIMIT && -SPAWN_LIMIT <= y <= SPAWN_LIMIT ==> r.wf(),
    {
        proof {
            lemma_align_coord_bounds(x as int);
            lemma_align_coord_bounds(y as int);
            lemma_align_coord_fits(x as int);
            lemma_align_coord_fits(y as int);
        }
        let actor_id = if id == 0 {
            ActorId::Player1
        } else if id == 1 {
            ActorId::Player2
        } else if id == 2 {
            ActorId::Player3
        } else if id == 3 {
            ActorId::Player4
        } else {
            ActorId::Player1
        };
        Player {
            actor_id,
            id,
            action: 1000,
            ttl: 1,
            pnt: Point::new(x, y).align_to_grid(),
            bomb_power: 2,
            max_num_bombs: 1,
            speed: 1,
        }
    }

    /// The draw command for this player.
    pub fn draw(&self) -> (s: Sprite)
        ensures
            s == (Sprite {
                x: self.pnt.x,
                y: self.pnt.y,
                actor_id: self.actor_id,
                action: self.action / 1000,
            }),
    {
        Sprite {
            x: self.pnt.x,
            y: self.pnt.y,
            actor_id: self.actor_id,
            action: self.action / 1000,
        }
    }

    /// Whether the player is alive (not waiting out a respawn).
    pub fn alive(&self) -> (r: bool)
        ensures
            r == (self.ttl > 0),
    {
        self.ttl > 0
    }

    /// The player and the bomb list one tick later.
    ///
    /// A dead player only heals its respawn countdown by one.  A live
    /// player may place a bomb on its grid cell (if it holds fewer
    /// bombs than its capacity and the cell is bomb-free), then moves
    /// by its grid-adjusted displacement unless a block, a bomb not
    /// already under it, or the edge of the coordinate envelope vetoes
    /// the move, and finally dies on contact with fire.
    pub open spec fn stepped(
        self,
        blocks: Seq<Block>,
        bombs: Seq<Bomb>,
        fires: Seq<Fire>,
        ks: KeyState,
        delta: int,
    ) -> (Player, Seq<Bomb>) {
        if self.ttl <= 0 {
            (Player { ttl: (self.ttl + 1) as i32, ..self }, bombs)
        } else {
            let action0 = if self.action == DEATH_ACTION {
                1000u32
            } else {
                self.action
            };
            let speed = delta / 6 * self.speed;
            let apos = spec_align(self.pnt);
            let places = ks.button1 && spec_owned(bombs, self.id) < self.max_num_bombs
                && !spec_bomb_at(bombs, apos);
            let bombs1 = if places {
                bombs.push(Bomb::spec_new(self.id, apos.x, apos.y, self.bomb_power))
            } else {
                bombs
            };
            let dxy = spec_adjust(self.pnt, pt(raw_dx(ks, speed), raw_dy(ks, speed)));
            let new_xy = pt(self.pnt.x + dxy.x, self.pnt.y + dxy.y);
            let vetoed = spec_block_touches(blocks, new_xy) || spec_bomb_veto(
                bombs1,
                self.pnt,
                new_xy,
            ) || !in_bounds(new_xy);
            let pnt2 = if vetoed {
                self.pnt
            } else {
                new_xy
            };
            let action2 = if vetoed {
                action0
            } else {
                spec_action_after(action0, dxy) as u32
            };
            if spec_fire_touches(fires, pnt2) {
                (Player { action: DEATH_ACTION, ttl: DEATH_TTL, pnt: pnt2, ..self }, bombs1)
            } else {
                (Player { action: action2, ttl: self.ttl, pnt: pnt2, ..self }, bombs1)
            }
        }
    }

    /// Advance the player by one tick: read the held keys, place a
    /// bomb, move, and check for fire, as `stepped` describes.
    pub fn update(
        &mut self,
        delta: i32,
        blocks: &Vec<Block>,
        bombs: &mut Vec<Bomb>,
        fires: &Vec<Fire>,
        key_state: &KeyState,
    )
        requires
            old(self).wf(),
            0 <= delta <= MAX_DELTA,
        ensures
            (*final(self), final(bombs)@) == old(self).stepped(
                blocks@,
                old(bombs)@,
                fires@,
                *key_state,
                delta as int,
            ),
            final(self).wf(),
            old(bombs)@.len() <= final(bombs)@.len() <= old(bombs)@.len() + 1,
            forall|i: int| 0 <= i < old(bombs)@.len() ==> final(bombs)@[i] == old(bombs)@[i],
            forall|i: int|
                old(bombs)@.len() <= i < final(bombs)@.len() ==> final(bombs)@[i].wf(),
    {
        if !self.alive() {
            self.ttl = self.ttl + 1;
            return ;
        }
        if self.action == DEATH_ACTION {
            self.action = 1000;
        }
        proof {
            lemma_mul_mag_bound(delta as int / 6, self.speed as int, 10_000, 30);
        }
        let speed: i32 = delta / 6 * self.speed as i32;
        let mut dx: i32 = 0;
        let mut dy: i32 = 0;
        if key_state.left {
            dx = -speed;
        }
        if key_state.right {
            dx = speed;
        }
        if key_state.up {
            dy = -speed;
        }
        if key_state.down {
            dy = speed;
        }
        if key_state.button1 {
            let sum = count_owned(bombs, self.id);
            if sum < self.max_num_bombs as usize {
                let pnt = self.pnt.align_to_grid();
                if !crate::actors::bomb::bomb_at(bombs, pnt) {
                    proof {
                        lemma_align_coord_bounds(self.pnt.x as int);
                        lemma_align_coord_bounds(self.pnt.y as int);
                    }
                    bombs.push(Bomb::new(self.id, pnt.x, pnt.y, self.bomb_power));
                }
            }
        }
        let dxy = self.pnt.adjust_vector_to_grid(Point::new(dx, dy));
        proof {
            lemma_adjust_bounded(self.pnt, Point { x: dx, y: dy }, 300_000);
        }
        let new_xy = Point::new(self.pnt.x + dxy.x, self.pnt.y + dxy.y);
        let block_exists = crate::actors::block::block_touches(blocks, new_xy);
        let bomb_exists = bomb_veto(bombs, self.pnt, new_xy);
        let outside = new_xy.x < -COORD_LIMIT || new_xy.x > COORD_LIMIT || new_xy.y < -COORD_LIMIT
            || new_xy.y > COORD_LIMIT;
        if !block_exists && !bomb_exists && !outside {
            self.pnt = new_xy;
            self.action = self.vector_to_action(dxy);
        }
        let fire_exists = crate::actors::fire::fire_touches(fires, self.pnt);
        if fire_exists {
            self.action = DEATH_ACTION;
            self.ttl = DEATH_TTL;
        }
    }

    /// The animation code for a move by `dxy`: pick the base pose of
    /// its cardinal direction and advance the frame within the pose
    /// proportionally to the distance moved.
    fn vector_to_action(&self, dxy: Point) -> (r: u32)
        requires
            self.action <= DEATH_ACTION,
            mag(dxy.x as int) <= 20_000_000,
            mag(dxy.y as int) <= 20_000_000,
        ensures
            r as int == spec_action_after(self.action, dxy),
            r <= DEATH_ACTION,
    {
        let dir = dxy.cardinal_direction();
        match dir {
            Some(x) => {
                let base_index: u32 = match x {
                    Direction::S => 0,
                    Direction::W => 3000,
                    Direction::E => 6000,
                    Direction::N => 9000,
                };
                let current_offset = self.action % 3000;
                base_index + ((current_offset + (dxy.length() * 50) as u32) % 3000)
            },
            None => self.action,
        }
    }

    /// Apply a picked-up item: bump the matching stat, capped at its
    /// maximum.
    pub fn push_item(&mut self, item_type: ActorId)
        ensures
            *final(self) == old(self).with_item(item_type),
    {
        match item_type {
            ActorId::BombUp => {
                self.max_num_bombs = if self.max_num_bombs < 8 {
                    self.max_num_bombs + 1
                } else {
                    8
                };
            },
            ActorId::BombPowerUp => {
                self.bomb_power = if self.bomb_power < 8 {
                    self.bomb_power + 1
                } else {
                    8
                };
            },
            ActorId::SpeedUp => {
                self.speed = if self.speed < 30 {
                    self.speed + 1
                } else {
                    30
                };
            },
            _ => (),
        }
    }

    /// The player after picking up an item: the matching stat bumped
    /// by one, capped at its maximum; any other actor id changes
    /// nothing.
    pub open spec fn with_item(self, item_type: ActorId) -> Player {
        match item_type {
            ActorId::BombUp => Player { max_num_bombs: bump(self.max_num_bombs, 8), ..self },
            ActorId::BombPowerUp => Player { bomb_power: bump(self.bomb_power, 8), ..self },
            ActorId::SpeedUp => Player { speed: bump(self.speed, 30), ..self },
            _ => self,
        }
    }
}

/// How many of the bombs belong to player `id`.
fn count_owned(bombs: &Vec<Bomb>, id: u32) -> (r: usize)
    ensures
        r as int == spec_owned(bombs@, id),
        r <= bombs@.len(),
{
    let mut i: usize = 0;
    let mut c: usize = 0;
    while i < bombs.len()
        invariant
            i <= bombs.len(),
            c as int == spec_owned(bombs@.take(i as int), id),
            c <= i,
        decreases bombs.len() - i,
    {
        proof {
            assert(bombs@.take(i as int + 1).drop_last() =~= bombs@.take(i as int));
            assert(bombs@.take(i as int + 1).last() == bombs@[i as int]);
        }
        if bombs[i].owner_id == id {
            c = c + 1;
        }
        i = i + 1;
    }
    proof {
        assert(bombs@.take(bombs@.len() as int) =~= bombs@);
    }
    c
}

/// Whether a bomb overlaps `new` without overlapping `cur`.
fn bomb_veto(bombs: &Vec<Bomb>, cur: Point, new: Point) -> (r: bool)
    ensures
        r == spec_bomb_veto(bombs@, cur, new),
{
    let mut i: usize = 0;
    while i < bombs.len()
        invariant
            i <= bombs.len(),
            forall|j: int|
                0 <= j < i ==> !(!spec_collides(cur, bombs@[j].pnt) && spec_collides(
                    new,
                    bombs@[j].pnt,
                )),
        decreases bombs.len() - i,
    {
        if !cur.collides_with(bombs[i].pnt) && new.collides_with(bombs[i].pnt) {
            return true;
        }
        i = i + 1;
    }
    false
}

} // verus!

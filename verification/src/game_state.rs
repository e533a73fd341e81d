//! Game state: owns all entity collections, drives the per-tick
//! update order, runs explosion propagation, and sweeps out expired
//! entities at the end of every tick.

use crate::actors::block::{spec_block_at_cell, Block, HARD_TTL, SOFT_TTL};
use crate::actors::bomb::{Bomb, BOMB_POS_LIMIT, BOMB_TTL};
use crate::actors::fire::{Fire, FIRE_TTL};
use crate::actors::player::Player;
use crate::actors::power::{spec_players_picked, Power, POWER_TTL};
use crate::actors::Sprite;
use crate::geometry::{align_coord, mag, Point, GS};
use crate::keyboard::{Key, KeyState};
use crate::MAX_DELTA;
use vstd::prelude::*;

verus! {

/// The whole simulation state the orchestrator owns.
pub struct GameState {
    /// Width of the drawing surface, in pixels.
    pub width: u32,
    /// Height of the drawing surface, in pixels.
    pub height: u32,
    /// Held-key state of the four player slots.
    pub key_states: Vec<KeyState>,
    /// Static terrain.
    pub blocks: Vec<Block>,
    /// Ticking bombs.
    pub bombs: Vec<Bomb>,
    /// Burning fires.
    pub fires: Vec<Fire>,
    /// The players.
    pub players: Vec<Player>,
    /// Waiting power-ups.
    pub powers: Vec<Power>,
}

/// The mathematical view of a game state: the same data as sequences.
pub struct StateView {
    /// Width of the drawing surface, in pixels.
    pub width: u32,
    /// Height of the drawing surface, in pixels.
    pub height: u32,
    /// Held-key state of the four player slots.
    pub key_states: Seq<KeyState>,
    /// Static terrain.
    pub blocks: Seq<Block>,
    /// Ticking bombs.
    pub bombs: Seq<Bomb>,
    /// Burning fires.
    pub fires: Seq<Fire>,
    /// The players.
    pub players: Seq<Player>,
    /// Waiting power-ups.
    pub powers: Seq<Power>,
}

impl View for GameState {
    type V = StateView;

    open spec fn view(&self) -> StateView {
        StateView {
            width: self.width,
            height: self.height,
            key_states: self.key_states@,
            blocks: self.blocks@,
            bombs: self.bombs@,
            fires: self.fires@,
            players: self.players@,
            powers: self.powers@,
        }
    }
}

impl GameState {
    /// A game state between ticks: four key slots, and every entity
    /// well formed, with player ids naming a key slot.
    pub open spec fn wf(&self) -> bool {
        &&& self.key_states@.len() == 4
        &&& forall|i: int|
            0 <= i < self.players@.len() ==> (#[trigger] self.players@[i]).wf()
                && self.players@[i].id < 4
        &&& forall|i: int| 0 <= i < self.bombs@.len() ==> (#[trigger] self.bombs@[i]).wf()
        &&& forall|i: int| 0 <= i < self.blocks@.len() ==> (#[trigger] self.blocks@[i]).wf()
        &&& forall|i: int| 0 <= i < self.fires@.len() ==> (#[trigger] self.fires@[i]).wf()
        &&& forall|i: int| 0 <= i < self.powers@.len() ==> (#[trigger] self.powers@[i]).wf()
    }

    /// Build the stage and spawn the four players at its corners; the
    /// rest of the collections start empty, and no key is held.
    pub fn new(width: u32, height: u32) -> (r: Self)
        ensures
            r.wf(),
            r.width == width,
            r.height == height,
            r.key_states@.len() == 4,
            forall|i: int| 0 <= i < 4 ==> r.key_states@[i] == KeyState::released(),
            r.bombs@ == Seq::<Bomb>::empty(),
            r.fires@ == Seq::<Fire>::empty(),
            r.players@ == crate::stage::spec_stage_players(),
            forall|i: int|
                0 <= i < r.blocks@.len() ==> crate::stage::stage_block_ok(#[trigger] r.blocks@[i]),
            crate::stage::stage_walls_complete(r.blocks@),
            forall|i: int|
                0 <= i < r.powers@.len() ==> crate::stage::stage_power_ok(#[trigger] r.powers@[i]),
    {
        let stage = crate::stage::Stage::new();
        let mut key_states: Vec<KeyState> = Vec::new();
        key_states.push(KeyState::new());
        key_states.push(KeyState::new());
        key_states.push(KeyState::new());
        key_states.push(KeyState::new());
        GameState {
            width,
            height,
            key_states,
            players: stage.players,
            bombs: Vec::new(),
            blocks: stage.blocks,
            fires: Vec::new(),
            powers: stage.powers,
        }
    }

    /// The key state `ks` with the field of `key` set to `state`.
    pub open spec fn spec_toggled(ks: KeyState, key: Key, state: bool) -> KeyState {
        match key {
            Key::Button1 => KeyState { button1: state, ..ks },
            Key::Left => KeyState { left: state, ..ks },
            Key::Right => KeyState { right: state, ..ks },
            Key::Up => KeyState { up: state, ..ks },
            Key::Down => KeyState { down: state, ..ks },
        }
    }

    /// Record that player slot `bind` pressed or released `key`; it
    /// takes effect on the next tick.  A slot out of range is a
    /// caller error and is excluded here; an unverified caller must
    /// check the slot first and fail fast.
    pub fn toggle_key(&mut self, bind: u32, key: Key, state: bool)
        requires
            (bind as int) < old(self).key_states@.len(),
        ensures
            final(self).key_states@ == old(self).key_states@.update(
                bind as int,
                GameState::spec_toggled(old(self).key_states@[bind as int], key, state),
            ),
            final(self).width == old(self).width,
            final(self).height == old(self).height,
            final(self).blocks@ == old(self).blocks@,
            final(self).bombs@ == old(self).bombs@,
            final(self).fires@ == old(self).fires@,
            final(self).players@ == old(self).players@,
            final(self).powers@ == old(self).powers@,
    {
        let mut ks = self.key_states[bind as usize];
        match key {
            Key::Button1 => {
                ks.button1 = state;
            },
            Key::Left => {
                ks.left = state;
            },
            Key::Right => {
                ks.right = state;
            },
            Key::Up => {
                ks.up = state;
            },
            Key::Down => {
                ks.down = state;
            },
        }
        self.key_states[bind as usize] = ks;
    }

    /// Shared view of the blocks.
    pub fn blocks(&self) -> (r: &Vec<Block>)
        ensures
            r@ == self.blocks@,
    {
        &self.blocks
    }

    /// Exclusive view of the blocks.
    pub fn blocks_mut(&mut self) -> (r: &mut Vec<Block>)
        ensures
            *r == old(self).blocks,
            *final(self) == (GameState { blocks: *final(r), ..*old(self) }),
    {
        &mut self.blocks
    }

    /// Shared view of the bombs.
    pub fn bombs(&self) -> (r: &Vec<Bomb>)
        ensures
            r@ == self.bombs@,
    {
        &self.bombs
    }

    /// Exclusive view of the bombs.
    pub fn bombs_mut(&mut self) -> (r: &mut Vec<Bomb>)
        ensures
            *r == old(self).bombs,
            *final(self) == (GameState { bombs: *final(r), ..*old(self) }),
    {
        &mut self.bombs
    }

    /// Shared view of the players.
    pub fn players(&self) -> (r: &Vec<Player>)
        ensures
            r@ == self.players@,
    {
        &self.players
    }

    /// Exclusive view of the players.
    pub fn players_mut(&mut self) -> (r: &mut Vec<Player>)
        ensures
            *r == old(self).players,
            *final(self) == (GameState { players: *final(r), ..*old(self) }),
    {
        &mut self.players
    }

    /// Shared view of the fires.
    pub fn fires(&self) -> (r: &Vec<Fire>)
        ensures
            r@ == self.fires@,
    {
        &self.fires
    }

    /// Exclusive view of the fires.
    pub fn fires_mut(&mut self) -> (r: &mut Vec<Fire>)
        ensures
            *r == old(self).fires,
            *final(self) == (GameState { fires: *final(r), ..*old(self) }),
    {
        &mut self.fires
    }

    /// Shared view of the power-ups.
    pub fn powers(&self) -> (r: &Vec<Power>)
        ensures
            r@ == self.powers@,
    {
        &self.powers
    }

    /// Exclusive view of the power-ups.
    pub fn powers_mut(&mut self) -> (r: &mut Vec<Power>)
        ensures
            *r == old(self).powers,
            *final(self) == (GameState { powers: *final(r), ..*old(self) }),
    {
        &mut self.powers
    }

    /// The state one tick of `delta` elapsed milliseconds later: the
    /// five phases in their fixed order — players (which may place
    /// bombs), bombs, blocks, fires, power-ups (which may feed
    /// players) — followed by the cleanup sweep, where expired bombs
    /// explode into fire and every dead entity leaves its collection.
    pub open spec fn spec_tick(v: StateView, delta: int) -> StateView {
        let pb = players_phase(v.players, v.bombs, v.blocks, v.fires, v.key_states, delta, 0);
        let bombs2 = bombs_phase(pb.1, v.fires, delta);
        let blocks2 = blocks_phase(v.blocks, v.fires);
        let fires2 = fires_phase(v.fires);
        let pw = powers_phase(v.powers, pb.0, fires2, blocks2, 0);
        let bf = sweep_bombs(bombs2, fires2, blocks2, 0);
        StateView {
            width: v.width,
            height: v.height,
            key_states: v.key_states,
            players: pw.1,
            bombs: bf.0,
            fires: sweep_fires(bf.1, 0),
            blocks: sweep_blocks(blocks2, 0),
            powers: sweep_powers(pw.0, 0),
        }
    }

    /// Advance the whole simulation by one tick of `delta` elapsed
    /// milliseconds, exactly as `spec_tick` describes.
    pub fn update(&mut self, delta: i32)
        requires
            old(self).wf(),
            0 <= delta <= MAX_DELTA,
        ensures
            final(self)@ == GameState::spec_tick(old(self)@, delta as int),
            final(self).wf(),
    {
        update_players(
            &mut self.players,
            &mut self.bombs,
            &self.blocks,
            &self.fires,
            &self.key_states,
            delta,
        );
        update_bombs(&mut self.bombs, &self.fires, delta);
        update_blocks(&mut self.blocks, &self.fires, delta);
        update_fires(&mut self.fires, delta);
        update_powers(&mut self.powers, &mut self.players, &self.fires, &self.blocks, delta);
        self.cleanup();
    }

    /// The end-of-tick sweep: remove every entity whose countdown has
    /// run out, and let every expired bomb spread its explosion first.
    /// Removal swaps in the last element, so survivors may be
    /// reordered; nothing refers to entities by index across the
    /// sweep.
    fn cleanup(&mut self)
        requires
            forall|i: int| 0 <= i < old(self).bombs@.len() ==> (#[trigger] old(self).bombs@[i]).wf(),
            forall|i: int|
                0 <= i < old(self).fires@.len() ==> 0 <= (#[trigger] old(self).fires@[i]).ttl
                    <= FIRE_TTL,
            forall|i: int|
                0 <= i < old(self).blocks@.len() ==> (#[trigger] old(self).blocks@[i]).ttl
                    == HARD_TTL || 0 <= old(self).blocks@[i].ttl <= SOFT_TTL,
            forall|i: int|
                0 <= i < old(self).powers@.len() ==> 0 <= (#[trigger] old(self).powers@[i]).ttl
                    <= POWER_TTL,
        ensures
            ({
                let bf = sweep_bombs(old(self).bombs@, old(self).fires@, old(self).blocks@, 0);
                &&& final(self).bombs@ == bf.0
                &&& final(self).fires@ == sweep_fires(bf.1, 0)
            }),
            final(self).blocks@ == sweep_blocks(old(self).blocks@, 0),
            final(self).powers@ == sweep_powers(old(self).powers@, 0),
            final(self).players@ == old(self).players@,
            final(self).key_states@ == old(self).key_states@,
            final(self).width == old(self).width,
            final(self).height == old(self).height,
            forall|i: int| 0 <= i < final(self).bombs@.len() ==> (#[trigger] final(self).bombs@[i]).wf(),
            forall|i: int| 0 <= i < final(self).fires@.len() ==> (#[trigger] final(self).fires@[i]).wf(),
            forall|i: int|
                0 <= i < final(self).blocks@.len() ==> (#[trigger] final(self).blocks@[i]).wf(),
            forall|i: int|
                0 <= i < final(self).powers@.len() ==> (#[trigger] final(self).powers@[i]).wf(),
    {
        let ghost bombs0 = self.bombs@;
        let ghost fires0 = self.fires@;
        let ghost blocks0 = self.blocks@;
        let ghost powers0 = self.powers@;
        let mut i: usize = 0;
        while i < self.bombs.len()
            invariant
                i <= self.bombs@.len(),
                sweep_bombs(bombs0, fires0, blocks0, 0) == sweep_bombs(
                    self.bombs@,
                    self.fires@,
                    self.blocks@,
                    i as nat,
                ),
                self.blocks@ == blocks0,
                self.powers@ == powers0,
                self.players@ == old(self).players@,
                self.key_states@ == old(self).key_states@,
                self.width == old(self).width,
                self.height == old(self).height,
                forall|j: int| 0 <= j < self.bombs@.len() ==> (#[trigger] self.bombs@[j]).wf(),
                forall|j: int|
                    0 <= j < self.fires@.len() ==> 0 <= (#[trigger] self.fires@[j]).ttl <= FIRE_TTL,
                forall|j: int| 0 <= j < i ==> (#[trigger] self.bombs@[j]).ttl > 0,
            decreases self.bombs@.len() - i,
        {
            if self.bombs[i].alive() {
                i = i + 1;
            } else {
                let b = self.bombs.swap_remove(i);
                explode(&mut self.fires, &self.blocks, b.pnt, b.power);
            }
        }
        let mut i: usize = 0;
        while i < self.fires.len()
            invariant
                i <= self.fires@.len(),
                sweep_fires(sweep_bombs(bombs0, fires0, blocks0, 0).1, 0) == sweep_fires(
                    self.fires@,
                    i as nat,
                ),
                self.bombs@ == sweep_bombs(bombs0, fires0, blocks0, 0).0,
                self.blocks@ == blocks0,
                self.powers@ == powers0,
                self.players@ == old(self).players@,
                self.key_states@ == old(self).key_states@,
                self.width == old(self).width,
                self.height == old(self).height,
                forall|j: int|
                    0 <= j < self.fires@.len() ==> 0 <= (#[trigger] self.fires@[j]).ttl <= FIRE_TTL,
                forall|j: int| 0 <= j < i ==> (#[trigger] self.fires@[j]).ttl > 0,
            decreases self.fires@.len() - i,
        {
            if self.fires[i].alive() {
                i = i + 1;
            } else {
                self.fires.swap_remove(i);
            }
        }
        let mut i: usize = 0;
        while i < self.blocks.len()
            invariant
                i <= self.blocks@.len(),
                sweep_blocks(blocks0, 0) == sweep_blocks(self.blocks@, i as nat),
                self.bombs@ == sweep_bombs(bombs0, fires0, blocks0, 0).0,
                self.fires@ == sweep_fires(sweep_bombs(bombs0, fires0, blocks0, 0).1, 0),
                self.powers@ == powers0,
                self.players@ == old(self).players@,
                self.key_states@ == old(self).key_states@,
                self.width == old(self).width,
                self.height == old(self).height,
                forall|j: int|
                    0 <= j < self.blocks@.len() ==> (#[trigger] self.blocks@[j]).ttl == HARD_TTL
                        || 0 <= self.blocks@[j].ttl <= SOFT_TTL,
                forall|j: int| 0 <= j < i ==> (#[trigger] self.blocks@[j]).ttl > 0,
            decreases self.blocks@.len() - i,
        {
            if self.blocks[i].alive() {
                i = i + 1;
            } else {
                self.blocks.swap_remove(i);
            }
        }
        let mut i: usize = 0;
        while i < self.powers.len()
            invariant
                i <= self.powers@.len(),
                sweep_powers(powers0, 0) == sweep_powers(self.powers@, i as nat),
                self.bombs@ == sweep_bombs(bombs0, fires0, blocks0, 0).0,
                self.fires@ == sweep_fires(sweep_bombs(bombs0, fires0, blocks0, 0).1, 0),
                self.blocks@ == sweep_blocks(blocks0, 0),
                self.players@ == old(self).players@,
                self.key_states@ == old(self).key_states@,
                self.width == old(self).width,
                self.height == old(self).height,
                forall|j: int|
                    0 <= j < self.powers@.len() ==> 0 <= (#[trigger] self.powers@[j]).ttl
                        <= POWER_TTL,
                forall|j: int| 0 <= j < i ==> (#[trigger] self.powers@[j]).ttl > 0,
            decreases self.powers@.len() - i,
        {
            if self.powers[i].alive() {
                i = i + 1;
            } else {
                self.powers.swap_remove(i);
            }
        }
    }

    /// The full frame of draw commands for the current state, in the
    /// fixed layer order: power-ups, players, bombs, blocks, fires.
    pub open spec fn spec_draw(gs: StateView) -> Seq<Sprite> {
        sprites_of_powers(gs.powers) + sprites_of_players(gs.players) + sprites_of_bombs(gs.bombs)
            + sprites_of_blocks(gs.blocks) + sprites_of_fires(gs.fires)
    }

    /// The draw commands for one frame, in the fixed layer order.
    ///
    /// Drawing reads the state and changes nothing, and the result is
    /// a function of the state alone: drawing twice without an
    /// intervening update yields the same frame.  The caller clears
    /// the surface to `width` x `height` before replaying the
    /// commands.
    pub fn draw(&self) -> (r: Vec<Sprite>)
        ensures
            r@ == GameState::spec_draw(self@),
    {
        let mut out: Vec<Sprite> = Vec::new();
        draw_powers_into(&mut out, &self.powers);
        draw_players_into(&mut out, &self.players);
        draw_bombs_into(&mut out, &self.bombs);
        draw_blocks_into(&mut out, &self.blocks);
        draw_fires_into(&mut out, &self.fires);
        proof {
            assert(out@ =~= GameState::spec_draw(self@));
        }
        out
    }
}

/// The cells one explosion ray covers: starting at `(cx, cy)` and
/// stepping by `(vx, vy)`, up to `power` cells.  The first cell with
/// a block on it ends the ray, and is itself covered only when that
/// block is soft.
pub open spec fn ray_cells(
    blocks: Seq<Block>,
    cx: int,
    cy: int,
    vx: int,
    vy: int,
    power: nat,
) -> Seq<(int, int)>
    decreases power,
{
    if power == 0 {
        Seq::empty()
    } else {
        match spec_block_at_cell(blocks, cx, cy) {
            Some(b) => if b.spec_is_soft() {
                seq![(cx, cy)]
            } else {
                Seq::empty()
            },
            None => seq![(cx, cy)] + ray_cells(
                blocks,
                cx + vx,
                cy + vy,
                vx,
                vy,
                (power - 1) as nat,
            ),
        }
    }
}

/// Fresh fires on the given cells.
pub open spec fn fires_at_cells(cells: Seq<(int, int)>) -> Seq<Fire> {
    cells.map(|i: int, c: (int, int)| Fire::spec_new(c.0 as i32, c.1 as i32))
}

/// All fires of one explosion at `pnt` with radius `power`: one fire
/// on the grid snap of `pnt` itself, then four rays of up to `power`
/// cells walked outward from the adjacent cells, in the order north,
/// south, west, east.  With no blocks in reach that is exactly
/// `1 + 4 * power` fires.
pub open spec fn spec_explosion(blocks: Seq<Block>, pnt: Point, power: u8) -> Seq<Fire> {
    let sx = align_coord(pnt.x as int);
    let sy = align_coord(pnt.y as int);
    let g = GS as int;
    seq![Fire::spec_new(sx as i32, sy as i32)] + fires_at_cells(
        ray_cells(blocks, sx, sy - g, 0, -g, power as nat),
    ) + fires_at_cells(ray_cells(blocks, sx, sy + g, 0, g, power as nat)) + fires_at_cells(
        ray_cells(blocks, sx - g, sy, -g, 0, power as nat),
    ) + fires_at_cells(ray_cells(blocks, sx + g, sy, g, 0, power as nat))
}

/// The straight run of `n` cells from `(cx, cy)` along `(vx, vy)`.
pub open spec fn line_cells(cx: int, cy: int, vx: int, vy: int, n: nat) -> Seq<(int, int)> {
    Seq::new(n, |k: int| (cx + k * vx, cy + k * vy))
}

/// What a blocking cell contributes to a ray: the cell itself when
/// its block is soft, nothing when it is hard.
pub open spec fn blocked_tail(b: Option<Block>, cx: int, cy: int) -> Seq<(int, int)> {
    match b {
        Some(bl) => if bl.spec_is_soft() {
            seq![(cx, cy)]
        } else {
            Seq::empty()
        },
        None => Seq::empty(),
    }
}

/// No block stands on any of the first `n` cells of the walk from
/// `(cx, cy)` along `(vx, vy)`.
pub open spec fn free_run(blocks: Seq<Block>, cx: int, cy: int, vx: int, vy: int, n: nat) -> bool
    decreases n,
{
    n == 0 || (spec_block_at_cell(blocks, cx, cy) is None && free_run(
        blocks,
        cx + vx,
        cy + vy,
        vx,
        vy,
        (n - 1) as nat,
    ))
}

/// Law: a ray with no block in its reach covers every cell up to its
/// power.
pub proof fn lemma_ray_free(blocks: Seq<Block>, cx: int, cy: int, vx: int, vy: int, power: nat)
    requires
        free_run(blocks, cx, cy, vx, vy, power),
    ensures
        ray_cells(blocks, cx, cy, vx, vy, power) == line_cells(cx, cy, vx, vy, power),
    decreases power,
{
    if power == 0 {
        assert(ray_cells(blocks, cx, cy, vx, vy, power) =~= line_cells(cx, cy, vx, vy, power));
    } else {
        assert(spec_block_at_cell(blocks, cx, cy) is None);
        lemma_ray_free(blocks, cx + vx, cy + vy, vx, vy, (power - 1) as nat);
        assert(ray_cells(blocks, cx, cy, vx, vy, power) =~= line_cells(cx, cy, vx, vy, power)) by {
            assert forall|k: int| 0 <= k < power implies ray_cells(blocks, cx, cy, vx, vy, power)[k]
                == (cx + k * vx, cy + k * vy) by {
                if k > 0 {
                    assert(line_cells(cx + vx, cy + vy, vx, vy, (power - 1) as nat)[k - 1] == (
                        cx + vx + (k - 1) * vx,
                        cy + vy + (k - 1) * vy,
                    ));
                    assert(cx + vx + (k - 1) * vx == cx + k * vx && cy + vy + (k - 1) * vy == cy + k
                        * vy) by (nonlinear_arith);
                } else {
                    assert(cx + 0 * vx == cx && cy + 0 * vy == cy);
                }
            }
        }
    }
}

/// Law: explosion propagation stops at the first block on its way.
/// Every cell before it is covered; the blocked cell itself yields
/// exactly one covered cell when its block is soft and none when it
/// is hard; and no cell beyond the block is covered either way.
pub proof fn lemma_ray_stops_at_block(
    blocks: Seq<Block>,
    cx: int,
    cy: int,
    vx: int,
    vy: int,
    power: nat,
    j: nat,
)
    requires
        j < power,
        free_run(blocks, cx, cy, vx, vy, j),
        spec_block_at_cell(blocks, cx + j * vx, cy + j * vy) is Some,
    ensures
        ray_cells(blocks, cx, cy, vx, vy, power) == line_cells(cx, cy, vx, vy, j) + blocked_tail(
            spec_block_at_cell(blocks, cx + j * vx, cy + j * vy),
            cx + j * vx,
            cy + j * vy,
        ),
    decreases j,
{
    let tail = blocked_tail(
        spec_block_at_cell(blocks, cx + j * vx, cy + j * vy),
        cx + j * vx,
        cy + j * vy,
    );
    if j == 0 {
        assert(cx + 0 * vx == cx && cy + 0 * vy == cy);
        assert(ray_cells(blocks, cx, cy, vx, vy, power) =~= line_cells(cx, cy, vx, vy, 0) + tail);
    } else {
        assert(spec_block_at_cell(blocks, cx, cy) is None);
        assert(cx + vx + (j - 1) * vx == cx + j * vx && cy + vy + (j - 1) * vy == cy + j
            * vy) by (nonlinear_arith);
        lemma_ray_stops_at_block(blocks, cx + vx, cy + vy, vx, vy, (power - 1) as nat, (j - 1) as nat);
        assert(ray_cells(blocks, cx, cy, vx, vy, power) =~= line_cells(cx, cy, vx, vy, j) + tail) by {
            let rest = line_cells(cx + vx, cy + vy, vx, vy, (j - 1) as nat) + tail;
            assert(ray_cells(blocks, cx, cy, vx, vy, power) == seq![(cx, cy)] + rest);
            let whole = seq![(cx, cy)] + rest;
            assert forall|k: int|
                0 <= k < j implies (line_cells(cx, cy, vx, vy, j) + tail)[k] == whole[k] by {
                if k > 0 {
                    assert(line_cells(cx + vx, cy + vy, vx, vy, (j - 1) as nat)[k - 1] == (
                        cx + vx + (k - 1) * vx,
                        cy + vy + (k - 1) * vy,
                    ));
                    assert(cx + vx + (k - 1) * vx == cx + k * vx && cy + vy + (k - 1) * vy == cy + k
                        * vy) by (nonlinear_arith);
                }
            }
        }
    }
}

/// Law: an explosion with no block in reach of any ray spawns exactly
/// `1 + 4 * power` fires: the bomb's own cell plus `power` cells in
/// each of the four directions.
pub proof fn lemma_explosion_count_in_the_open(blocks: Seq<Block>, pnt: Point, power: u8)
    requires
        ({
            let sx = align_coord(pnt.x as int);
            let sy = align_coord(pnt.y as int);
            let g = GS as int;
            &&& free_run(blocks, sx, sy - g, 0, -g, power as nat)
            &&& free_run(blocks, sx, sy + g, 0, g, power as nat)
            &&& free_run(blocks, sx - g, sy, -g, 0, power as nat)
            &&& free_run(blocks, sx + g, sy, g, 0, power as nat)
        }),
    ensures
        spec_explosion(blocks, pnt, power).len() == 1 + 4 * power,
{
    let sx = align_coord(pnt.x as int);
    let sy = align_coord(pnt.y as int);
    let g = GS as int;
    lemma_ray_free(blocks, sx, sy - g, 0, -g, power as nat);
    lemma_ray_free(blocks, sx, sy + g, 0, g, power as nat);
    lemma_ray_free(blocks, sx - g, sy, -g, 0, power as nat);
    lemma_ray_free(blocks, sx + g, sy, g, 0, power as nat);
}

/// The live-bomb predicate, shared by every statement about the bomb
/// sweep.
pub open spec fn bomb_is_live() -> spec_fn(Bomb) -> bool {
    |b: Bomb| b.ttl > 0
}

/// The live-fire predicate, shared by every statement about the fire
/// sweep.
pub open spec fn fire_is_live() -> spec_fn(Fire) -> bool {
    |f: Fire| f.ttl > 0
}

/// The live-block predicate, shared by every statement about the
/// block sweep.
pub open spec fn block_is_live() -> spec_fn(Block) -> bool {
    |b: Block| b.ttl > 0
}

/// The live-power-up predicate, shared by every statement about the
/// power-up sweep.
pub open spec fn power_is_live() -> spec_fn(Power) -> bool {
    |p: Power| p.ttl > 0
}

/// A filter that accepts every element changes nothing.
proof fn lemma_filter_all<T>(s: Seq<T>, pred: spec_fn(T) -> bool)
    requires
        forall|j: int| 0 <= j < s.len() ==> pred(#[trigger] s[j]),
    ensures
        s.filter(pred) == s,
    decreases s.len(),
{
    reveal(Seq::filter);
    if s.len() > 0 {
        lemma_filter_all(s.drop_last(), pred);
        assert(s.drop_last().filter(pred).push(s.last()) =~= s);
    } else {
        assert(s.filter(pred) =~= s);
    }
}

/// Swap-removing an element the filter rejects does not change the
/// filtered contents, up to order.
proof fn lemma_swap_removed_filter<T>(s: Seq<T>, pred: spec_fn(T) -> bool, i: int)
    requires
        0 <= i < s.len(),
        !pred(s[i]),
    ensures
        swap_removed(s, i).filter(pred).to_multiset() == s.filter(pred).to_multiset(),
{
    broadcast use vstd::multiset::group_multiset_axioms;

    reveal(Seq::filter);
    let e = s.last();
    let n = s.len() as int;
    assert(Seq::<T>::empty().filter(pred) =~= Seq::<T>::empty());
    if i == n - 1 {
        assert(s.update(i, e) =~= s);
        assert(swap_removed(s, i) =~= s.drop_last());
        assert(s.filter(pred) == s.drop_last().filter(pred));
    } else {
        let a = s.take(i);
        let d = s[i];
        let bp = s.subrange(i + 1, n - 1);
        assert(s =~= a + seq![d] + bp + seq![e]);
        assert(swap_removed(s, i) =~= a + seq![e] + bp);
        Seq::filter_distributes_over_add(a + seq![d] + bp, seq![e], pred);
        Seq::filter_distributes_over_add(a + seq![d], bp, pred);
        Seq::filter_distributes_over_add(a, seq![d], pred);
        Seq::filter_distributes_over_add(a + seq![e], bp, pred);
        Seq::filter_distributes_over_add(a, seq![e], pred);
        let fa = a.filter(pred);
        let fb = bp.filter(pred);
        let fe = seq![e].filter(pred);
        assert(seq![d].drop_last() =~= Seq::<T>::empty());
        assert(seq![d].last() == d);
        assert(seq![d].filter(pred) =~= Seq::<T>::empty());
        assert(a.filter(pred) + seq![d].filter(pred) =~= fa);
        assert(s.filter(pred) == fa + fb + fe);
        assert(swap_removed(s, i).filter(pred) == fa + fe + fb);
        vstd::seq_lib::lemma_multiset_commutative(fa + fb, fe);
        vstd::seq_lib::lemma_multiset_commutative(fa, fb);
        vstd::seq_lib::lemma_multiset_commutative(fa + fe, fb);
        vstd::seq_lib::lemma_multiset_commutative(fa, fe);
        assert((fa + fb + fe).to_multiset() =~= (fa + fe + fb).to_multiset());
    }
}

/// Law: the cleanup sweep keeps exactly the bombs still ticking:
/// whatever reordering the swap removals cause, the swept bombs are,
/// as a multiset, the live bombs of the input.
pub proof fn lemma_sweep_keeps_live_bombs(
    bombs: Seq<Bomb>,
    fires: Seq<Fire>,
    blocks: Seq<Block>,
    i: nat,
)
    requires
        forall|j: int| 0 <= j < i ==> (#[trigger] bombs[j]).ttl > 0,
    ensures
        sweep_bombs(bombs, fires, blocks, i).0.to_multiset() == bombs.filter(
            bomb_is_live(),
        ).to_multiset(),
    decreases bombs.len() - i,
{
    if i >= bombs.len() {
        lemma_filter_all(bombs, bomb_is_live());
    } else if bombs[i as int].ttl > 0 {
        lemma_sweep_keeps_live_bombs(bombs, fires, blocks, i + 1);
    } else {
        let sw = swap_removed(bombs, i as int);
        assert forall|j: int| 0 <= j < i implies (#[trigger] sw[j]).ttl > 0 by {
            assert(sw[j] == bombs[j]);
        }
        lemma_sweep_keeps_live_bombs(
            sw,
            fires + spec_explosion(blocks, bombs[i as int].pnt, bombs[i as int].power),
            blocks,
            i,
        );
        lemma_swap_removed_filter(bombs, bomb_is_live(), i as int);
    }
}

/// Law: the cleanup sweep keeps exactly the fires still burning, as a
/// multiset.
pub proof fn lemma_sweep_keeps_live_fires(s: Seq<Fire>, i: nat)
    requires
        forall|j: int| 0 <= j < i ==> (#[trigger] s[j]).ttl > 0,
    ensures
        sweep_fires(s, i).to_multiset() == s.filter(fire_is_live()).to_multiset(),
    decreases s.len() - i,
{
    if i >= s.len() {
        lemma_filter_all(s, fire_is_live());
    } else if s[i as int].ttl > 0 {
        lemma_sweep_keeps_live_fires(s, i + 1);
    } else {
        let sw = swap_removed(s, i as int);
        assert forall|j: int| 0 <= j < i implies (#[trigger] sw[j]).ttl > 0 by {
            assert(sw[j] == s[j]);
        }
        lemma_sweep_keeps_live_fires(sw, i);
        lemma_swap_removed_filter(s, fire_is_live(), i as int);
    }
}

/// Law: the cleanup sweep keeps exactly the blocks still standing, as
/// a multiset.
pub proof fn lemma_sweep_keeps_live_blocks(s: Seq<Block>, i: nat)
    requires
        forall|j: int| 0 <= j < i ==> (#[trigger] s[j]).ttl > 0,
    ensures
        sweep_blocks(s, i).to_multiset() == s.filter(block_is_live()).to_multiset(),
    decreases s.len() - i,
{
    if i >= s.len() {
        lemma_filter_all(s, block_is_live());
    } else if s[i as int].ttl > 0 {
        lemma_sweep_keeps_live_blocks(s, i + 1);
    } else {
        let sw = swap_removed(s, i as int);
        assert forall|j: int| 0 <= j < i implies (#[trigger] sw[j]).ttl > 0 by {
            assert(sw[j] == s[j]);
        }
        lemma_sweep_keeps_live_blocks(sw, i);
        lemma_swap_removed_filter(s, block_is_live(), i as int);
    }
}

/// Law: the cleanup sweep keeps exactly the power-ups not yet
/// consumed or destroyed, as a multiset.
pub proof fn lemma_sweep_keeps_live_powers(s: Seq<Power>, i: nat)
    requires
        forall|j: int| 0 <= j < i ==> (#[trigger] s[j]).ttl > 0,
    ensures
        sweep_powers(s, i).to_multiset() == s.filter(power_is_live()).to_multiset(),
    decreases s.len() - i,
{
    if i >= s.len() {
        lemma_filter_all(s, power_is_live());
    } else if s[i as int].ttl > 0 {
        lemma_sweep_keeps_live_powers(s, i + 1);
    } else {
        let sw = swap_removed(s, i as int);
        assert forall|j: int| 0 <= j < i implies (#[trigger] sw[j]).ttl > 0 by {
            assert(sw[j] == s[j]);
        }
        lemma_sweep_keeps_live_powers(sw, i);
        lemma_swap_removed_filter(s, power_is_live(), i as int);
    }
}

/// The player phase only appends to the bomb list, and every bomb it
/// appends starts at the full countdown.
pub proof fn lemma_players_phase_bombs(
    players: Seq<Player>,
    bombs: Seq<Bomb>,
    blocks: Seq<Block>,
    fires: Seq<Fire>,
    keys: Seq<KeyState>,
    delta: int,
    i: nat,
)
    ensures
        ({
            let out = players_phase(players, bombs, blocks, fires, keys, delta, i).1;
            &&& out.len() >= bombs.len()
            &&& forall|k: int| 0 <= k < bombs.len() ==> out[k] == bombs[k]
            &&& forall|k: int| bombs.len() <= k < out.len() ==> (#[trigger] out[k]).ttl == BOMB_TTL
        }),
    decreases players.len() - i,
{
    if i < players.len() {
        let pb = players[i as int].stepped(blocks, bombs, fires, keys[players[i as int].id as int], delta);
        lemma_players_phase_bombs(players.update(i as int, pb.0), pb.1, blocks, fires, keys, delta, i + 1);
    }
}

/// Law: ticking the bombs with non-negative elapsed time never raises
/// any bomb's countdown and never drops one below zero.
pub proof fn lemma_bombs_phase_monotonic(bombs: Seq<Bomb>, fires: Seq<Fire>, delta: int, i: int)
    requires
        0 <= delta,
        0 <= i < bombs.len(),
        0 <= bombs[i].ttl,
    ensures
        bombs_phase(bombs, fires, delta).len() == bombs.len(),
        0 <= bombs_phase(bombs, fires, delta)[i].ttl <= bombs[i].ttl,
{
}

/// Every bomb the sweep keeps is one of the bombs it was given.
pub proof fn lemma_sweep_bombs_elements(
    bombs: Seq<Bomb>,
    fires: Seq<Fire>,
    blocks: Seq<Block>,
    k: nat,
    j: int,
)
    requires
        0 <= j < sweep_bombs(bombs, fires, blocks, k).0.len(),
    ensures
        exists|i: int|
            0 <= i < bombs.len() && sweep_bombs(bombs, fires, blocks, k).0[j] == #[trigger] bombs[i],
    decreases bombs.len() - k,
{
    let out = sweep_bombs(bombs, fires, blocks, k).0;
    if k >= bombs.len() {
        assert(out[j] == bombs[j]);
    } else if bombs[k as int].ttl > 0 {
        lemma_sweep_bombs_elements(bombs, fires, blocks, k + 1, j);
    } else {
        let shrunk = swap_removed(bombs, k as int);
        lemma_sweep_bombs_elements(
            shrunk,
            fires + spec_explosion(blocks, bombs[k as int].pnt, bombs[k as int].power),
            blocks,
            k,
            j,
        );
        let i0 = choose|i: int| 0 <= i < shrunk.len() && out[j] == #[trigger] shrunk[i];
        if i0 == k {
            assert(out[j] == bombs[bombs.len() - 1]);
        } else {
            assert(out[j] == bombs[i0]);
        }
    }
}

/// Law: a bomb's countdown is monotonically non-increasing over ticks
/// with non-negative elapsed time, and never drops below zero.  Every
/// bomb present after a tick is the ticked image of a bomb that was in
/// the list when the bomb phase ran: its countdown is at least zero
/// and no greater than that bomb's, and that bomb either already stood
/// in the list before the tick, unchanged, or was placed this very
/// tick at the full countdown.
pub proof fn lemma_tick_bomb_countdown(v: StateView, delta: int, j: int)
    requires
        0 <= delta,
        forall|i: int| 0 <= i < v.bombs.len() ==> 0 <= (#[trigger] v.bombs[i]).ttl,
        0 <= j < GameState::spec_tick(v, delta).bombs.len(),
    ensures
        ({
            let placed = players_phase(v.players, v.bombs, v.blocks, v.fires, v.key_states, delta, 0).1;
            let after = GameState::spec_tick(v, delta).bombs[j];
            exists|i: int|
                #![auto]
                0 <= i < placed.len() && after == placed[i].stepped(v.fires, delta) && 0
                    <= after.ttl <= placed[i].ttl && (i < v.bombs.len() ==> placed[i] == v.bombs[i])
                    && (i >= v.bombs.len() ==> placed[i].ttl == BOMB_TTL)
        }),
{
    let placed = players_phase(v.players, v.bombs, v.blocks, v.fires, v.key_states, delta, 0).1;
    lemma_players_phase_bombs(v.players, v.bombs, v.blocks, v.fires, v.key_states, delta, 0);
    let ticked = bombs_phase(placed, v.fires, delta);
    let blocks2 = blocks_phase(v.blocks, v.fires);
    let fires2 = fires_phase(v.fires);
    lemma_sweep_bombs_elements(ticked, fires2, blocks2, 0, j);
    let t = choose|t: int|
        0 <= t < ticked.len() && sweep_bombs(ticked, fires2, blocks2, 0).0[j] == #[trigger] ticked[t];
    lemma_bombs_phase_monotonic(placed, v.fires, delta, t);
    assert(ticked[t] == placed[t].stepped(v.fires, delta));
    assert(0 <= placed[t].ttl) by {
        if t < v.bombs.len() {
            assert(placed[t] == v.bombs[t]);
        }
    }
}

/// Walk one explosion ray and push its fires, as `ray_cells`
/// describes.
fn explode_ray(fires: &mut Vec<Fire>, blocks: &Vec<Block>, start: Point, vx: i32, vy: i32, power: u8)
    requires
        mag(start.x as int) <= BOMB_POS_LIMIT + 150,
        mag(start.y as int) <= BOMB_POS_LIMIT + 150,
        mag(vx as int) <= 60,
        mag(vy as int) <= 60,
    ensures
        final(fires)@ == old(fires)@ + fires_at_cells(
            ray_cells(blocks@, start.x as int, start.y as int, vx as int, vy as int, power as nat),
        ),
        forall|i: int|
            old(fires)@.len() <= i < final(fires)@.len() ==> (#[trigger] final(fires)@[i]).wf(),
{
    let ghost full = ray_cells(
        blocks@,
        start.x as int,
        start.y as int,
        vx as int,
        vy as int,
        power as nat,
    );
    let ghost mut done: Seq<(int, int)> = Seq::empty();
    let mut p: u8 = power;
    let mut pnt: Point = start;
    let mut stopped: bool = false;
    proof {
        assert(fires@ =~= old(fires)@ + fires_at_cells(done));
    }
    while !stopped && p > 0
        invariant
            mag(start.x as int) <= BOMB_POS_LIMIT + 150,
            mag(start.y as int) <= BOMB_POS_LIMIT + 150,
            mag(vx as int) <= 60,
            mag(vy as int) <= 60,
            p <= power,
            mag(pnt.x as int) <= BOMB_POS_LIMIT + 150 + 60 * (power - p),
            mag(pnt.y as int) <= BOMB_POS_LIMIT + 150 + 60 * (power - p),
            fires@ == old(fires)@ + fires_at_cells(done),
            full == done + (if stopped {
                Seq::<(int, int)>::empty()
            } else {
                ray_cells(blocks@, pnt.x as int, pnt.y as int, vx as int, vy as int, p as nat)
            }),
            forall|i: int|
                old(fires)@.len() <= i < fires@.len() ==> (#[trigger] fires@[i]).wf(),
        decreases (if stopped {
            0int
        } else {
            1int
        }), p,
    {
        let ghost rest = ray_cells(
            blocks@,
            pnt.x as int,
            pnt.y as int,
            vx as int,
            vy as int,
            p as nat,
        );
        let found = crate::actors::block::block_at(blocks, pnt);
        match found {
            Some(block) => {
                if block.is_soft() {
                    fires.push(Fire::new(pnt.x, pnt.y));
                    proof {
                        let c = (pnt.x as int, pnt.y as int);
                        assert(fires_at_cells(done.push(c)) =~= fires_at_cells(done).push(
                            Fire::spec_new(pnt.x, pnt.y),
                        ));
                        done = done.push(c);
                        assert(fires@ =~= old(fires)@ + fires_at_cells(done));
                        assert(rest =~= seq![c]);
                        assert(full =~= done + Seq::<(int, int)>::empty());
                    }
                } else {
                    proof {
                        assert(rest =~= Seq::<(int, int)>::empty());
                        assert(full =~= done + Seq::<(int, int)>::empty());
                    }
                }
                stopped = true;
            },
            None => {
                fires.push(Fire::new(pnt.x, pnt.y));
                proof {
                    let c = (pnt.x as int, pnt.y as int);
                    assert(fires_at_cells(done.push(c)) =~= fires_at_cells(done).push(
                        Fire::spec_new(pnt.x, pnt.y),
                    ));
                    let next = ray_cells(
                        blocks@,
                        pnt.x as int + vx as int,
                        pnt.y as int + vy as int,
                        vx as int,
                        vy as int,
                        (p - 1) as nat,
                    );
                    assert(rest == seq![c] + next);
                    assert(done + rest =~= done.push(c) + next);
                    done = done.push(c);
                    assert(fires@ =~= old(fires)@ + fires_at_cells(done));
                }
                p = p - 1;
                pnt = Point::new(pnt.x + vx, pnt.y + vy);
            },
        }
    }
    proof {
        if !stopped {
            assert(ray_cells(blocks@, pnt.x as int, pnt.y as int, vx as int, vy as int, p as nat)
                =~= Seq::<(int, int)>::empty());
        }
        assert(full =~= done);
        assert(fires@ =~= old(fires)@ + fires_at_cells(full));
    }
}

/// Spread the explosion of a bomb at `pnt` with radius `power`: one
/// fire on the bomb's own cell, then the four axis rays walked
/// outward from the adjacent cells, one fire per covered cell.
fn explode(fires: &mut Vec<Fire>, blocks: &Vec<Block>, pnt: Point, power: u8)
    requires
        mag(pnt.x as int) <= BOMB_POS_LIMIT,
        mag(pnt.y as int) <= BOMB_POS_LIMIT,
    ensures
        final(fires)@ == old(fires)@ + spec_explosion(blocks@, pnt, power),
        forall|i: int|
            old(fires)@.len() <= i < final(fires)@.len() ==> (#[trigger] final(fires)@[i]).wf(),
{
    proof {
        crate::geometry::lemma_align_coord_bounds(pnt.x as int);
        crate::geometry::lemma_align_coord_bounds(pnt.y as int);
        crate::geometry::lemma_align_coord_fits(pnt.x as int);
        crate::geometry::lemma_align_coord_fits(pnt.y as int);
    }
    let start = pnt.align_to_grid();
    fires.push(Fire::new(start.x, start.y));
    explode_ray(fires, blocks, Point::new(start.x, start.y - GS), 0, -GS, power);
    explode_ray(fires, blocks, Point::new(start.x, start.y + GS), 0, GS, power);
    explode_ray(fires, blocks, Point::new(start.x - GS, start.y), -GS, 0, power);
    explode_ray(fires, blocks, Point::new(start.x + GS, start.y), GS, 0, power);
    proof {
        assert(fires@ =~= old(fires)@ + spec_explosion(blocks@, pnt, power));
    }
}

/// The player phase: update the players in index order; each player
/// sees the bomb list its predecessors left behind.
pub open spec fn players_phase(
    players: Seq<Player>,
    bombs: Seq<Bomb>,
    blocks: Seq<Block>,
    fires: Seq<Fire>,
    keys: Seq<KeyState>,
    delta: int,
    i: nat,
) -> (Seq<Player>, Seq<Bomb>)
    decreases players.len() - i,
{
    if i >= players.len() {
        (players, bombs)
    } else {
        let pb = players[i as int].stepped(
            blocks,
            bombs,
            fires,
            keys[players[i as int].id as int],
            delta,
        );
        players_phase(players.update(i as int, pb.0), pb.1, blocks, fires, keys, delta, i + 1)
    }
}

/// The bomb phase: every bomb ticks down independently.
pub open spec fn bombs_phase(bombs: Seq<Bomb>, fires: Seq<Fire>, delta: int) -> Seq<Bomb> {
    bombs.map(|i: int, b: Bomb| b.stepped(fires, delta))
}

/// The block phase: every block burns independently.
pub open spec fn blocks_phase(blocks: Seq<Block>, fires: Seq<Fire>) -> Seq<Block> {
    blocks.map(|i: int, b: Block| b.stepped(fires))
}

/// The fire phase: every fire decays independently.
pub open spec fn fires_phase(fires: Seq<Fire>) -> Seq<Fire> {
    fires.map(|i: int, f: Fire| f.stepped())
}

/// The power-up phase: each power-up in index order hands its item to
/// the players standing on it and checks for an uncovered blast.
pub open spec fn powers_phase(
    powers: Seq<Power>,
    players: Seq<Player>,
    fires: Seq<Fire>,
    blocks: Seq<Block>,
    i: nat,
) -> (Seq<Power>, Seq<Player>)
    decreases powers.len() - i,
{
    if i >= powers.len() {
        (powers, players)
    } else {
        let pw = powers[i as int];
        powers_phase(
            powers.update(i as int, pw.stepped(players, fires, blocks)),
            spec_players_picked(players, pw.pnt, pw.actor_id),
            fires,
            blocks,
            i + 1,
        )
    }
}

/// A sequence with element `i` replaced by the last element and the
/// last dropped, as `Vec::swap_remove` leaves it.
pub open spec fn swap_removed<T>(s: Seq<T>, i: int) -> Seq<T> {
    s.update(i, s.last()).drop_last()
}

/// The bomb sweep: walk the bombs once; a dead bomb is swap-removed
/// and appends its explosion to the fires, a live one is kept.
pub open spec fn sweep_bombs(
    bombs: Seq<Bomb>,
    fires: Seq<Fire>,
    blocks: Seq<Block>,
    i: nat,
) -> (Seq<Bomb>, Seq<Fire>)
    decreases bombs.len() - i,
{
    if i >= bombs.len() {
        (bombs, fires)
    } else if bombs[i as int].ttl > 0 {
        sweep_bombs(bombs, fires, blocks, i + 1)
    } else {
        sweep_bombs(
            swap_removed(bombs, i as int),
            fires + spec_explosion(blocks, bombs[i as int].pnt, bombs[i as int].power),
            blocks,
            i,
        )
    }
}

/// The fire sweep: swap-remove every burnt-out fire.
pub open spec fn sweep_fires(s: Seq<Fire>, i: nat) -> Seq<Fire>
    decreases s.len() - i,
{
    if i >= s.len() {
        s
    } else if s[i as int].ttl > 0 {
        sweep_fires(s, i + 1)
    } else {
        sweep_fires(swap_removed(s, i as int), i)
    }
}

/// The block sweep: swap-remove every burnt-down block.
pub open spec fn sweep_blocks(s: Seq<Block>, i: nat) -> Seq<Block>
    decreases s.len() - i,
{
    if i >= s.len() {
        s
    } else if s[i as int].ttl > 0 {
        sweep_blocks(s, i + 1)
    } else {
        sweep_blocks(swap_removed(s, i as int), i)
    }
}

/// The power-up sweep: swap-remove every consumed or destroyed item.
pub open spec fn sweep_powers(s: Seq<Power>, i: nat) -> Seq<Power>
    decreases s.len() - i,
{
    if i >= s.len() {
        s
    } else if s[i as int].ttl > 0 {
        sweep_powers(s, i + 1)
    } else {
        sweep_powers(swap_removed(s, i as int), i)
    }
}

/// Run the player phase on the collections.
fn update_players(
    players: &mut Vec<Player>,
    bombs: &mut Vec<Bomb>,
    blocks: &Vec<Block>,
    fires: &Vec<Fire>,
    key_states: &Vec<KeyState>,
    delta: i32,
)
    requires
        forall|i: int|
            0 <= i < old(players)@.len() ==> (#[trigger] old(players)@[i]).wf()
                && old(players)@[i].id < key_states@.len(),
        forall|i: int| 0 <= i < old(bombs)@.len() ==> (#[trigger] old(bombs)@[i]).wf(),
        0 <= delta <= MAX_DELTA,
    ensures
        (final(players)@, final(bombs)@) == players_phase(
            old(players)@,
            old(bombs)@,
            blocks@,
            fires@,
            key_states@,
            delta as int,
            0,
        ),
        forall|i: int| 0 <= i < final(players)@.len() ==> (#[trigger] final(players)@[i]).wf(),
        forall|i: int|
            0 <= i < final(players)@.len() ==> (#[trigger] final(players)@[i]).id == old(
                players,
            )@[i].id,
        forall|i: int| 0 <= i < final(bombs)@.len() ==> (#[trigger] final(bombs)@[i]).wf(),
        final(players)@.len() == old(players)@.len(),
{
    let ghost players0 = players@;
    let ghost bombs0 = bombs@;
    let mut i: usize = 0;
    while i < players.len()
        invariant
            i <= players@.len(),
            players@.len() == players0.len(),
            players_phase(players0, bombs0, blocks@, fires@, key_states@, delta as int, 0)
                == players_phase(
                players@,
                bombs@,
                blocks@,
                fires@,
                key_states@,
                delta as int,
                i as nat,
            ),
            forall|j: int| 0 <= j < players@.len() ==> (#[trigger] players@[j]).wf(),
            forall|j: int| 0 <= j < players@.len() ==> (#[trigger] players@[j]).id == players0[j].id,
            forall|j: int| i <= j < players@.len() ==> players@[j] == players0[j],
            forall|j: int| 0 <= j < bombs@.len() ==> (#[trigger] bombs@[j]).wf(),
            forall|j: int|
                0 <= j < players0.len() ==> (#[trigger] players0[j]).id < key_states@.len(),
            0 <= delta <= MAX_DELTA,
        decreases players@.len() - i,
    {
        let mut p = players[i];
        let ks = key_states[p.id as usize];
        p.update(delta, blocks, bombs, fires, &ks);
        players[i] = p;
        i = i + 1;
    }
}

/// Run the bomb phase on the collections.
fn update_bombs(bombs: &mut Vec<Bomb>, fires: &Vec<Fire>, delta: i32)
    requires
        forall|i: int| 0 <= i < old(bombs)@.len() ==> (#[trigger] old(bombs)@[i]).wf(),
        0 <= delta,
    ensures
        final(bombs)@ == bombs_phase(old(bombs)@, fires@, delta as int),
        forall|i: int| 0 <= i < final(bombs)@.len() ==> (#[trigger] final(bombs)@[i]).wf(),
{
    let ghost bombs0 = bombs@;
    let mut i: usize = 0;
    while i < bombs.len()
        invariant
            i <= bombs@.len(),
            bombs@.len() == bombs0.len(),
            forall|j: int| 0 <= j < i ==> bombs@[j] == bombs0[j].stepped(fires@, delta as int),
            forall|j: int| i <= j < bombs@.len() ==> bombs@[j] == bombs0[j],
            forall|j: int| 0 <= j < bombs@.len() ==> (#[trigger] bombs@[j]).wf(),
            0 <= delta,
        decreases bombs@.len() - i,
    {
        let mut b = bombs[i];
        b.update(delta, fires);
        bombs[i] = b;
        i = i + 1;
    }
    proof {
        assert(bombs@ =~= bombs_phase(bombs0, fires@, delta as int));
    }
}

/// Run the block phase on the collections.
fn update_blocks(blocks: &mut Vec<Block>, fires: &Vec<Fire>, delta: i32)
    requires
        forall|i: int| 0 <= i < old(blocks)@.len() ==> (#[trigger] old(blocks)@[i]).wf(),
    ensures
        final(blocks)@ == blocks_phase(old(blocks)@, fires@),
        forall|i: int|
            0 <= i < final(blocks)@.len() ==> (#[trigger] final(blocks)@[i]).ttl == HARD_TTL || 0
                <= final(blocks)@[i].ttl <= SOFT_TTL,
{
    let ghost blocks0 = blocks@;
    let mut i: usize = 0;
    while i < blocks.len()
        invariant
            i <= blocks@.len(),
            blocks@.len() == blocks0.len(),
            forall|j: int| 0 <= j < i ==> blocks@[j] == blocks0[j].stepped(fires@),
            forall|j: int| i <= j < blocks@.len() ==> blocks@[j] == blocks0[j],
            forall|j: int|
                0 <= j < blocks@.len() ==> (#[trigger] blocks@[j]).ttl == HARD_TTL || 0
                    <= blocks@[j].ttl <= SOFT_TTL,
            forall|j: int| i <= j < blocks@.len() ==> (#[trigger] blocks@[j]).wf(),
        decreases blocks@.len() - i,
    {
        let mut b = blocks[i];
        b.update(delta, fires);
        blocks[i] = b;
        i = i + 1;
    }
    proof {
        assert(blocks@ =~= blocks_phase(blocks0, fires@));
    }
}

/// Run the fire phase on the collections.
fn update_fires(fires: &mut Vec<Fire>, delta: i32)
    requires
        forall|i: int| 0 <= i < old(fires)@.len() ==> (#[trigger] old(fires)@[i]).wf(),
    ensures
        final(fires)@ == fires_phase(old(fires)@),
        forall|i: int|
            0 <= i < final(fires)@.len() ==> 0 <= (#[trigger] final(fires)@[i]).ttl <= FIRE_TTL,
{
    let ghost fires0 = fires@;
    let mut i: usize = 0;
    while i < fires.len()
        invariant
            i <= fires@.len(),
            fires@.len() == fires0.len(),
            forall|j: int| 0 <= j < i ==> fires@[j] == fires0[j].stepped(),
            forall|j: int| i <= j < fires@.len() ==> fires@[j] == fires0[j],
            forall|j: int| 0 <= j < fires@.len() ==> 0 <= (#[trigger] fires@[j]).ttl <= FIRE_TTL,
            forall|j: int| i <= j < fires@.len() ==> (#[trigger] fires@[j]).wf(),
        decreases fires@.len() - i,
    {
        let mut f = fires[i];
        f.update(delta);
        fires[i] = f;
        i = i + 1;
    }
    proof {
        assert(fires@ =~= fires_phase(fires0));
    }
}

/// Run the power-up phase on the collections.
fn update_powers(
    powers: &mut Vec<Power>,
    players: &mut Vec<Player>,
    fires: &Vec<Fire>,
    blocks: &Vec<Block>,
    delta: i32,
)
    requires
        forall|i: int| 0 <= i < old(powers)@.len() ==> (#[trigger] old(powers)@[i]).wf(),
        forall|i: int| 0 <= i < old(players)@.len() ==> (#[trigger] old(players)@[i]).wf(),
    ensures
        (final(powers)@, final(players)@) == powers_phase(
            old(powers)@,
            old(players)@,
            fires@,
            blocks@,
            0,
        ),
        forall|i: int|
            0 <= i < final(powers)@.len() ==> 0 <= (#[trigger] final(powers)@[i]).ttl <= POWER_TTL,
        forall|i: int| 0 <= i < final(players)@.len() ==> (#[trigger] final(players)@[i]).wf(),
        forall|i: int|
            0 <= i < final(players)@.len() ==> (#[trigger] final(players)@[i]).id == old(
                players,
            )@[i].id,
        final(players)@.len() == old(players)@.len(),
{
    let ghost powers0 = powers@;
    let ghost players0 = players@;
    let mut i: usize = 0;
    while i < powers.len()
        invariant
            i <= powers@.len(),
            powers@.len() == powers0.len(),
            players@.len() == players0.len(),
            powers_phase(powers0, players0, fires@, blocks@, 0) == powers_phase(
                powers@,
                players@,
                fires@,
                blocks@,
                i as nat,
            ),
            forall|j: int|
                0 <= j < i ==> 0 <= (#[trigger] powers@[j]).ttl <= POWER_TTL,
            forall|j: int| i <= j < powers@.len() ==> powers@[j] == powers0[j],
            forall|j: int| i <= j < powers@.len() ==> (#[trigger] powers@[j]).wf(),
            forall|j: int| 0 <= j < players@.len() ==> (#[trigger] players@[j]).wf(),
            forall|j: int| 0 <= j < players@.len() ==> (#[trigger] players@[j]).id == players0[j].id,
        decreases powers@.len() - i,
    {
        let mut pw = powers[i];
        let ghost players_pre = players@;
        pw.update(delta, players, fires, blocks);
        powers[i] = pw;
        proof {
            assert forall|j: int| 0 <= j < players@.len() implies (#[trigger] players@[j]).wf()
                && players@[j].id == players0[j].id by {
                assert(players@[j] == (if crate::geometry::spec_align(players_pre[j].pnt)
                    == powers0[i as int].pnt {
                    players_pre[j].with_item(powers0[i as int].actor_id)
                } else {
                    players_pre[j]
                }));
            }
        }
        i = i + 1;
    }
}

/// The draw command of one power-up.
pub open spec fn power_sprite(p: Power) -> Sprite {
    Sprite { x: p.pnt.x, y: p.pnt.y, actor_id: p.actor_id, action: p.action }
}

/// The draw command of one player; the action code is in thousandths
/// of a frame.
pub open spec fn player_sprite(p: Player) -> Sprite {
    Sprite { x: p.pnt.x, y: p.pnt.y, actor_id: p.actor_id, action: p.action / 1000 }
}

/// The draw command of one bomb.
pub open spec fn bomb_sprite(b: Bomb) -> Sprite {
    Sprite { x: b.pnt.x, y: b.pnt.y, actor_id: b.actor_id, action: b.action }
}

/// The draw command of one block.
pub open spec fn block_sprite(b: Block) -> Sprite {
    Sprite { x: b.pnt.x, y: b.pnt.y, actor_id: b.actor_id, action: b.action }
}

/// The draw command of one fire.
pub open spec fn fire_sprite(f: Fire) -> Sprite {
    Sprite { x: f.pnt.x, y: f.pnt.y, actor_id: f.actor_id, action: f.action }
}

/// The power-up layer of a frame.
pub open spec fn sprites_of_powers(s: Seq<Power>) -> Seq<Sprite> {
    s.map(|i: int, p: Power| power_sprite(p))
}

/// The player layer of a frame.
pub open spec fn sprites_of_players(s: Seq<Player>) -> Seq<Sprite> {
    s.map(|i: int, p: Player| player_sprite(p))
}

/// The bomb layer of a frame.
pub open spec fn sprites_of_bombs(s: Seq<Bomb>) -> Seq<Sprite> {
    s.map(|i: int, b: Bomb| bomb_sprite(b))
}

/// The block layer of a frame.
pub open spec fn sprites_of_blocks(s: Seq<Block>) -> Seq<Sprite> {
    s.map(|i: int, b: Block| block_sprite(b))
}

/// The fire layer of a frame.
pub open spec fn sprites_of_fires(s: Seq<Fire>) -> Seq<Sprite> {
    s.map(|i: int, f: Fire| fire_sprite(f))
}

/// Append the power-up layer to the frame being built.
fn draw_powers_into(out: &mut Vec<Sprite>, s: &Vec<Power>)
    ensures
        final(out)@ == old(out)@ + sprites_of_powers(s@),
{
    let mut i: usize = 0;
    while i < s.len()
        invariant
            i <= s@.len(),
            out@ =~= old(out)@ + sprites_of_powers(s@.take(i as int)),
        decreases s@.len() - i,
    {
        out.push(s[i].draw());
        proof {
            assert(s@.take(i as int + 1) =~= s@.take(i as int).push(s@[i as int]));
            assert(out@ =~= old(out)@ + sprites_of_powers(s@.take(i as int + 1)));
        }
        i = i + 1;
    }
    proof {
        assert(s@.take(s@.len() as int) =~= s@);
    }
}

/// Append the player layer to the frame being built.
fn draw_players_into(out: &mut Vec<Sprite>, s: &Vec<Player>)
    ensures
        final(out)@ == old(out)@ + sprites_of_players(s@),
{
    let mut i: usize = 0;
    while i < s.len()
        invariant
            i <= s@.len(),
            out@ =~= old(out)@ + sprites_of_players(s@.take(i as int)),
        decreases s@.len() - i,
    {
        out.push(s[i].draw());
        proof {
            assert(s@.take(i as int + 1) =~= s@.take(i as int).push(s@[i as int]));
            assert(out@ =~= old(out)@ + sprites_of_players(s@.take(i as int + 1)));
        }
        i = i + 1;
    }
    proof {
        assert(s@.take(s@.len() as int) =~= s@);
    }
}

/// Append the bomb layer to the frame being built.
fn draw_bombs_into(out: &mut Vec<Sprite>, s: &Vec<Bomb>)
    ensures
        final(out)@ == old(out)@ + sprites_of_bombs(s@),
{
    let mut i: usize = 0;
    while i < s.len()
        invariant
            i <= s@.len(),
            out@ =~= old(out)@ + sprites_of_bombs(s@.take(i as int)),
        decreases s@.len() - i,
    {
        out.push(s[i].draw());
        proof {
            assert(s@.take(i as int + 1) =~= s@.take(i as int).push(s@[i as int]));
            assert(out@ =~= old(out)@ + sprites_of_bombs(s@.take(i as int + 1)));
        }
        i = i + 1;
    }
    proof {
        assert(s@.take(s@.len() as int) =~= s@);
    }
}

/// Append the block layer to the frame being built.
fn draw_blocks_into(out: &mut Vec<Sprite>, s: &Vec<Block>)
    ensures
        final(out)@ == old(out)@ + sprites_of_blocks(s@),
{
    let mut i: usize = 0;
    while i < s.len()
        invariant
            i <= s@.len(),
            out@ =~= old(out)@ + sprites_of_blocks(s@.take(i as int)),
        decreases s@.len() - i,
    {
        out.push(s[i].draw());
        proof {
            assert(s@.take(i as int + 1) =~= s@.take(i as int).push(s@[i as int]));
            assert(out@ =~= old(out)@ + sprites_of_blocks(s@.take(i as int + 1)));
        }
        i = i + 1;
    }
    proof {
        assert(s@.take(s@.len() as int) =~= s@);
    }
}

/// Append the fire layer to the frame being built.
fn draw_fires_into(out: &mut Vec<Sprite>, s: &Vec<Fire>)
    ensures
        final(out)@ == old(out)@ + sprites_of_fires(s@),
{
    let mut i: usize = 0;
    while i < s.len()
        invariant
            i <= s@.len(),
            out@ =~= old(out)@ + sprites_of_fires(s@.take(i as int)),
        decreases s@.len() - i,
    {
        out.push(s[i].draw());
        proof {
            assert(s@.take(i as int + 1) =~= s@.take(i as int).push(s@[i as int]));
            assert(out@ =~= old(out)@ + sprites_of_fires(s@.take(i as int + 1)));
        }
        i = i + 1;
    }
    proof {
        assert(s@.take(s@.len() as int) =~= s@);
    }
}

} // verus!

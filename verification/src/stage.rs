//! Stage builder: one-shot construction of the initial block layout
//! and player spawn placement from the fixed 15 x 13 map template,
//! with weighted-random decoration of soft blocks and power-ups.

use crate::actors::block::Block;
use crate::actors::player::Player;
use crate::actors::power::{Power, POWER_TTL};
use crate::actors::ActorId;
use crate::geometry::{spec_align, Point};
use vstd::prelude::*;

verus! {

/// Width of the stage, in cells.
pub const STAGE_WIDTH: usize = 15;

/// Height of the stage, in cells.
pub const STAGE_HEIGHT: usize = 13;

/// The initial placement of everything on the stage.
pub struct Stage {
    /// The terrain: the fixed walls plus the random soft blocks.
    pub blocks: Vec<Block>,
    /// The four players, one per spawn corner.
    pub players: Vec<Player>,
    /// The random power-ups, each hidden under a soft block.
    pub powers: Vec<Power>,
    /// Width of the stage, in cells.
    pub width: usize,
    /// Height of the stage, in cells.
    pub height: usize,
}

/// What the fixed map template puts on cell `(x, y)`: 1 a hard block
/// (the perimeter wall and the inner checkerboard), 3 to 6 the spawn
/// corner of player `cell - 3`, 2 a corridor cell next to a spawn that
/// always stays free, and 0 a free cell that may get a random soft
/// block.
pub open spec fn spec_template_cell(x: int, y: int) -> u8 {
    if y == 0 || y == 12 || x == 0 || x == 14 {
        1
    } else if y % 2 == 0 && x % 2 == 0 {
        1
    } else if x == 13 && y == 11 {
        3
    } else if x == 1 && y == 1 {
        4
    } else if x == 13 && y == 1 {
        5
    } else if x == 1 && y == 11 {
        6
    } else if (x == 2 || x == 12) && (y == 1 || y == 11) {
        2
    } else if (x == 1 || x == 13) && (y == 2 || y == 10) {
        2
    } else {
        0
    }
}

/// What the fixed map template puts on cell `(x, y)`.
pub fn template_cell(x: usize, y: usize) -> (c: u8)
    ensures
        c == spec_template_cell(x as int, y as int),
{
    if y == 0 || y == 12 || x == 0 || x == 14 {
        1
    } else if y % 2 == 0 && x % 2 == 0 {
        1
    } else if x == 13 && y == 11 {
        3
    } else if x == 1 && y == 1 {
        4
    } else if x == 13 && y == 1 {
        5
    } else if x == 1 && y == 11 {
        6
    } else if (x == 2 || x == 12) && (y == 1 || y == 11) {
        2
    } else if (x == 1 || x == 13) && (y == 2 || y == 10) {
        2
    } else {
        0
    }
}

/// The players a fresh stage holds, in the order the template scan
/// meets their spawn corners.
pub open spec fn spec_stage_players() -> Seq<Player> {
    seq![
        Player::spec_new(1, 60, 60),
        Player::spec_new(2, 780, 60),
        Player::spec_new(3, 60, 660),
        Player::spec_new(0, 780, 660),
    ]
}

/// The hard block the template puts on cell `(x, y)`.
pub open spec fn spec_hard_block_at(x: int, y: int) -> Block {
    Block::spec_build((60 * x) as i32, (60 * y) as i32, crate::actors::block::HARD_TTL, 0)
}

/// The soft block the decoration may put on cell `(x, y)`.
pub open spec fn spec_soft_block_at(x: int, y: int) -> Block {
    Block::spec_build((60 * x) as i32, (60 * y) as i32, crate::actors::block::SOFT_TTL, 1)
}

/// A block a stage may hold: a hard block on a template wall cell, or
/// a soft block on a template free cell.
pub open spec fn stage_block_ok(b: Block) -> bool {
    exists|x: int, y: int|
        #![auto]
        0 <= x < 15 && 0 <= y < 13 && ((spec_template_cell(x, y) == 1 && b == spec_hard_block_at(
            x,
            y,
        )) || (spec_template_cell(x, y) == 0 && b == spec_soft_block_at(x, y)))
}

/// The stage holds a hard block on every template wall cell.
pub open spec fn stage_walls_complete(blocks: Seq<Block>) -> bool {
    forall|x: int, y: int|
        0 <= x < 15 && 0 <= y < 13 && #[trigger] spec_template_cell(x, y) == 1 ==> exists|k: int|
            0 <= k < blocks.len() && blocks[k] == spec_hard_block_at(x, y)
}

/// A power-up a stage may hold: one of the three stat items, waiting
/// on a template free cell.
pub open spec fn stage_power_ok(p: Power) -> bool {
    &&& exists|x: int, y: int|
        #![auto]
        0 <= x < 15 && 0 <= y < 13 && spec_template_cell(x, y) == 0 && p.pnt == spec_align(
            Point { x: (60 * x) as i32, y: (60 * y) as i32 },
        )
    &&& (p.actor_id == ActorId::BombUp || p.actor_id == ActorId::BombPowerUp || p.actor_id
        == ActorId::SpeedUp)
    &&& p.ttl == POWER_TTL
    &&& p.action == 0
}

/// What every fresh stage satisfies, whatever the random decoration
/// drew: the template's measurements and players, every block on its
/// template cell, and every power-up a stat item on a free cell.
pub open spec fn stage_ok(s: Stage) -> bool {
    &&& s.width == 15
    &&& s.height == 13
    &&& s.players@ == spec_stage_players()
    &&& forall|i: int|
        0 <= i < s.players@.len() ==> (#[trigger] s.players@[i]).wf() && s.players@[i].id < 4
    &&& forall|i: int|
        0 <= i < s.blocks@.len() ==> stage_block_ok(#[trigger] s.blocks@[i]) && s.blocks@[i].wf()
    &&& stage_walls_complete(s.blocks@)
    &&& forall|i: int|
        0 <= i < s.powers@.len() ==> stage_power_ok(#[trigger] s.powers@[i]) && s.powers@[i].wf()
}

impl Stage {
    /// Build a fresh stage: walk the template, place the wall and the
    /// spawn corners, and decorate each free cell with a soft block by
    /// a coin flip — and under a decorated block, with another flip, a
    /// random power-up.
    pub fn new() -> (r: Stage)
        ensures
            stage_ok(r),
    {
        let mut blocks: Vec<Block> = Vec::new();
        let mut players: Vec<Player> = Vec::new();
        let mut powers: Vec<Power> = Vec::new();
        let mut i: usize = 0;
        while i < 195
            invariant
                forall|j: int|
                    0 <= j < blocks@.len() ==> stage_block_ok(#[trigger] blocks@[j])
                        && blocks@[j].wf(),
                forall|x2: int, y2: int|
                    0 <= x2 < 15 && 0 <= y2 < 13 && 15 * y2 + x2 < i && #[trigger] spec_template_cell(
                        x2,
                        y2,
                    ) == 1 ==> exists|k: int|
                        0 <= k < blocks@.len() && blocks@[k] == spec_hard_block_at(x2, y2),
                forall|j: int|
                    0 <= j < powers@.len() ==> stage_power_ok(#[trigger] powers@[j])
                        && powers@[j].wf(),
            decreases 195 - i,
        {
            let x = i % 15;
            let y = i / 15;
            let px = (x * 60) as i32;
            let py = (y * 60) as i32;
            let cell = template_cell(x, y);
            let ghost blocks_pre = blocks@;
            if cell == 1 {
                blocks.push(Block::hard(px, py));
            } else if cell == 0 {
                if rand::random::<bool>() {
                    blocks.push(Block::soft(px, py));
                    if rand::random::<bool>() {
                        powers.push(Power::random_item(px, py));
                    }
                }
            }
            proof {
                assert forall|x2: int, y2: int|
                    0 <= x2 < 15 && 0 <= y2 < 13 && 15 * y2 + x2 < i + 1 && #[trigger] spec_template_cell(
                        x2,
                        y2,
                    ) == 1 implies exists|k: int|
                    0 <= k < blocks@.len() && blocks@[k] == spec_hard_block_at(x2, y2) by {
                    if 15 * y2 + x2 == i {
                        vstd::arithmetic::div_mod::lemma_fundamental_div_mod_converse(
                            i as int,
                            15,
                            y2,
                            x2,
                        );
                        assert(x2 == x as int && y2 == y as int);
                        assert(blocks@[blocks@.len() - 1] == spec_hard_block_at(x2, y2));
                    } else {
                        let k = choose|k: int|
                            0 <= k < blocks_pre.len() && blocks_pre[k] == #[trigger] spec_hard_block_at(
                                x2,
                                y2,
                            );
                        assert(blocks@[k] == spec_hard_block_at(x2, y2));
                    }
                }
            }
            i = i + 1;
        }
        players.push(Player::new(1, 60, 60));
        players.push(Player::new(2, 780, 60));
        players.push(Player::new(3, 60, 660));
        players.push(Player::new(0, 780, 660));
        proof {
            assert(players@ =~= spec_stage_players());
        }
        Stage { width: STAGE_WIDTH, height: STAGE_HEIGHT, blocks, players, powers }
    }
}

impl Default for Stage {
    fn default() -> (r: Self)
        ensures
            stage_ok(r),
    {
        Stage::new()
    }
}

} // verus!

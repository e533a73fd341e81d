//! The gameplay entities and what they share: the actor id that maps
//! an entity to its sprite, and the draw command handed to a renderer.

pub mod block;
pub mod bomb;
pub mod fire;
pub mod player;
pub mod power;

use vstd::prelude::*;

verus! {

/// Character id for mapping an actor to its sprite.
#[derive(Clone, Copy, Debug, PartialEq, Eq, Structural)]
pub enum ActorId {
    Player1,
    Player2,
    Player3,
    Player4,
    Bomb,
    Block,
    Fire,
    BombUp,
    BombPowerUp,
    SpeedUp,
}

/// One draw command for the external renderer: which sprite to put at
/// which position, in which visual state.
#[derive(Clone, Copy, Debug, PartialEq, Eq, Structural)]
pub struct Sprite {
    pub x: i32,
    pub y: i32,
    pub actor_id: ActorId,
    pub action: u32,
}

} // verus!

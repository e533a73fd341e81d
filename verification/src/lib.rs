//! Simulation core of a grid-based multiplayer arena game.
//!
//! The library owns all gameplay entities (blocks, bombs, fires,
//! power-ups, players), advances them once per tick, resolves movement
//! against obstacles, and runs the bomb-explosion and fire-propagation
//! rules.  Rendering and input wiring are thin adapters kept outside
//! the library: `draw` hands back plain sprite commands, and key state
//! is fed in through `toggle_key`.

pub mod actors;
pub mod game_state;
pub mod geometry;
pub mod keyboard;
pub mod stage;

use vstd::prelude::*;

verus! {

/// Upper bound on the elapsed time one tick may advance, in
/// milliseconds.  One frame is around 16 ms; a minute per tick is far
/// beyond any real frame and keeps all time arithmetic in machine
/// range.
pub const MAX_DELTA: i32 = 60_000;

/// Relies on rand::random: a fresh draw from the thread-local
/// generator.  Nothing can be promised of a random value, so this
/// carries no contract; every caller states what holds of all
/// outcomes.
pub assume_specification<T>[ rand::random::<T> ]() -> (r: T)
    where
        rand::distributions::Standard: rand::distributions::Distribution<T>,
;

} // verus!

//! Keyboard input: the per-slot held-key state the simulation reads.

use vstd::prelude::*;

verus! {

/// One input key of a player slot.
#[derive(Clone, Copy, Debug, PartialEq, Eq, Structural)]
pub enum Key {
    Button1,
    Left,
    Right,
    Up,
    Down,
}

/// The held-key state of one player slot, sampled at tick start.
#[derive(Clone, Copy, Debug, PartialEq, Eq, Structural)]
pub struct KeyState {
    pub button1: bool,
    pub left: bool,
    pub right: bool,
    pub up: bool,
    pub down: bool,
}

impl KeyState {
    /// The state with no key held.
    pub open spec fn released() -> KeyState {
        KeyState { button1: false, left: false, right: false, up: false, down: false }
    }

    /// A fresh key state with no key held.
    pub fn new() -> (r: Self)
        ensures
            r == KeyState::released(),
    {
        KeyState { button1: false, left: false, right: false, up: false, down: false }
    }
}

impl Default for KeyState {
    fn default() -> (r: Self)
        ensures
            r == KeyState::released(),
    {
        KeyState::new()
    }
}

} // verus!

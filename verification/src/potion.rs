//! Healing potions lying on the dungeon floor.

use vstd::prelude::*;

verus! {

/// A potion at `(x, y)` that restores `heal_amount` hit points once picked up.
pub struct Potion {
    pub x: usize,
    pub y: usize,
    pub heal_amount: i32,
    pub picked_up: bool,
}

impl Potion {
    /// A fresh potion at `(x, y)` that heals 15 hit points.
    pub fn new(x: usize, y: usize) -> (p: Potion)
        ensures
            p.x == x,
            p.y == y,
            p.heal_amount == 15,
            !p.picked_up,
    {
        Potion { x, y, heal_amount: 15, picked_up: false }
    }
}

} // verus!

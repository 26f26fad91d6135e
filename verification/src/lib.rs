//! A small dungeon crawler: a grid level, a player, wandering enemies and
//! healing potions, with the rules of a turn stated and proved in Verus.

pub mod entity;
pub mod game;
pub mod journal;
pub mod level;
pub mod pickup;
pub mod potion;
mod random;
pub mod spawn;
pub mod wandering;

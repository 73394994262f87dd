//! Simulation core of a small real-time 2D tower-defense game.
//!
//! A player base and spawned human defenders face enemy attackers that
//! converge on the base.  This crate holds the entity simulation: the
//! per-tick update that advances each entity's finite-state behaviour
//! (idle / walk / run / attack), resolves melee engagement and damage
//! exchange between the opposing rosters, and removes defeated entities,
//! all driven by a shared delta-time tick.
//!
//! All world quantities (positions, sizes, speeds, hit points, damage)
//! are fixed-point integers in thousandths of their natural unit, and
//! times are integer milliseconds, so that the whole simulation is
//! deterministic and its behaviour can be stated and proved exactly.
//! Rendering, window handling and input are left to the caller, which
//! feeds each frame's delta-time in and reads positions, sizes and hit
//! points back out.

use vstd::prelude::*;

pub mod building;
pub mod enemy;
pub mod events;
pub mod fight;
pub mod game;
pub mod human;
pub mod laws;
pub mod motion;
pub mod posmap;
mod rng;
pub mod settings;
pub mod texture_manager;
pub mod ui;

verus! {

/// Clamp a proposed hit-point value into `[0, max_hp]`.
pub open spec fn clamp_hp(new_hp: int, max_hp: int) -> int {
    if new_hp < 0 {
        0
    } else if new_hp > max_hp {
        max_hp
    } else {
        new_hp
    }
}

} // verus!

//! Tunable world constants.
//!
//! Lengths and speeds are fixed-point integers in thousandths of a pixel
//! (one pixel = 1000 units); hit points and damage are in thousandths of
//! a hit point; durations are integer milliseconds.

use vstd::prelude::*;

verus! {

/// Fixed-point scale: one natural unit is this many fixed-point units.
pub const MILLI: i64 = 1000;

// Window settings.
pub const WINDOW_WIDTH: i64 = 1_280_000;
pub const WINDOW_HEIGHT: i64 = 720_000;

// World settings.
pub const GROUND_HEIGHT: i64 = 35_000;
pub const GROUND_POS_Y: i64 = 550_000;

// Human settings.
pub const HUMANS_MAX_HP: i64 = 100_000;
pub const HUMANS_HEIGHT: i64 = 50_000;
pub const HUMANS_POS_Y: i64 = 525_000;
/// Walk speed in thousandths of a pixel per 60 Hz frame.
pub const HUMANS_WALK_SPEED: i64 = 1_500;
/// Factor (in thousandths) applied to the walk speed for idle strolling.
pub const HUMANS_IDLE_WALK_SPEED_FACTOR: i64 = 200;
/// Idle-walk speed: `HUMANS_WALK_SPEED * HUMANS_IDLE_WALK_SPEED_FACTOR`,
/// rescaled back into fixed point.
pub const HUMANS_IDLE_WALK_SPEED: i64 = 300;

// Enemy settings.
pub const ENEMY_WALK_SPEED: i64 = 1_000;
/// Where enemies spawn, to the right of the window.
pub const ENEMY_SPAWN_X: i64 = 1_300_000;
/// Enemies walk toward the window's midpoint and never leave
/// `[0, ENEMY_X_LIMIT]` once inside it.
pub const ENEMY_X_LIMIT: i64 = 1_360_000;

// Building settings.
pub const BUILDING_BASE_MAX_HP: i64 = 500_000;
pub const BUILDING_OTHERS_MAX_HP: i64 = 300_000;
pub const BUILDING_SIZE: i64 = 100_000;
pub const BUILDING_POS_X: i64 = 70_000;
/// Building target ids are the building's index plus this bias, so they
/// never collide with unit ids.
pub const BUILDING_ID_BIAS: u32 = 100;
/// Horizontal slack added to a building's position in the reach test.
pub const BUILDING_REACH: i64 = 50_000;

// Unit geometry.
pub const UNIT_SIZE_X: i64 = 30_000;
pub const UNIT_SIZE_Y: i64 = 50_000;
pub const HUMAN_SPAWN_X: i64 = 45_000;

// Combat settings.
pub const UNIT_ATTACK_DAMAGE: i64 = 20_000;
pub const BUILDING_ATTACK_DAMAGE: i64 = 50_000;
/// Upper bound kept on every damage figure so hit-point arithmetic
/// cannot overflow.
pub const DAMAGE_LIMIT: i64 = 1_000_000;
/// Upper bound kept on every coordinate magnitude so position
/// arithmetic cannot overflow.
pub const POS_LIMIT: i64 = 1_000_000_000;

// Behaviour timing, in milliseconds.
/// An idle human starts strolling after this long.
pub const IDLE_STATE_MS: i64 = 3_000;
/// A strolling human sits back down after this long.
pub const WALK_STATE_MS: i64 = 1_500;
/// Minimum delay between two attacks of one entity.
pub const ATTACK_COOLDOWN_MS: i64 = 1_500;

/// Largest delta-time one tick accepts; larger frames must be fed in
/// as several ticks.  Keeps all position arithmetic in bounds.
pub const MAX_TICK_MS: i64 = 1_000;
/// Elapsed-time counters saturate here, far above every behaviour
/// threshold, so they can never overflow.
pub const TIMER_CAP_MS: i64 = 1_000_000_000;

// Locomotion.
/// Friction factor, in thousandths, applied to the velocity per second.
pub const FRICTION: i64 = 200;
/// Velocities of magnitude below this count as standing still.
pub const VELOCITY_EPSILON: i64 = 1;

// Random idle-walk direction.
/// Uniform draws for the idle-walk direction lie in `[0, DRAW_BOUND)`.
pub const DRAW_BOUND: u64 = 1000;
/// Draws below this half-way mark pick the positive direction.
pub const DRAW_HALF: u64 = 500;

} // verus!

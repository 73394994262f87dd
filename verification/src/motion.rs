//! Geometry and locomotion: 2D vectors, velocity decay, the 60 Hz
//! normalised movement step, and horizontal screen wrapping.

use vstd::prelude::*;
use crate::settings::{
    MILLI, WINDOW_WIDTH, HUMANS_WALK_SPEED, MAX_TICK_MS, TIMER_CAP_MS,
    VELOCITY_EPSILON,
};

verus! {

/// A 2D point or extent, in thousandths of a pixel.
#[derive(Clone, Copy, PartialEq, Eq, Structural, Debug)]
pub struct Vec2 {
    pub x: i64,
    pub y: i64,
}

/// Mathematical view of `Vec2`.
pub ghost struct Vec2V {
    pub x: int,
    pub y: int,
}

impl View for Vec2 {
    type V = Vec2V;

    open spec fn view(&self) -> Vec2V {
        Vec2V { x: self.x as int, y: self.y as int }
    }
}

impl Vec2 {
    pub fn new(x: i64, y: i64) -> (r: Vec2)
        ensures
            r.x == x,
            r.y == y,
    {
        Vec2 { x, y }
    }
}

/// Which side the opposing roster is approaching from.
#[derive(Clone, Copy, PartialEq, Eq, Structural, Debug)]
pub enum EnemyComing {
    Right,
    Left,
}

/// Velocity and friction of one entity, for non-engaged locomotion.
#[derive(Clone, Copy, PartialEq, Eq, Structural, Debug)]
pub struct PhysicalStates {
    /// Horizontal velocity, in thousandths of a pixel per 60 Hz frame.
    pub velocity: i64,
    /// Friction factor in thousandths, applied to the velocity per second.
    pub friction: i64,
}

/// An elapsed-time counter advanced by `dt`, saturating at
/// `TIMER_CAP_MS` (far above every behaviour threshold).
pub open spec fn spec_saturating_elapse(t: int, dt: int) -> int {
    if t + dt > TIMER_CAP_MS {
        TIMER_CAP_MS as int
    } else {
        t + dt
    }
}

/// Distance covered in `dt` milliseconds at velocity `v` (thousandths of
/// a pixel per 60 Hz frame): `v * dt * 60 / 1000`, rounded toward zero.
pub open spec fn spec_scaled_step(v: int, dt: int) -> int {
    if v >= 0 {
        v * dt * 60 / (MILLI as int)
    } else {
        -((-v) * dt * 60 / (MILLI as int))
    }
}

/// One tick of velocity decay: magnitudes below `VELOCITY_EPSILON` count
/// as standing still, anything else is damped by
/// `velocity * friction * dt`, rounded toward zero.
pub open spec fn spec_decayed_velocity(v: int, friction: int, dt: int) -> int {
    let v0 = if -VELOCITY_EPSILON < v && v < VELOCITY_EPSILON {
        0
    } else {
        v
    };
    if v0 > 0 {
        v0 - v0 * friction * dt / 1_000_000
    } else if v0 < 0 {
        v0 + (-v0) * friction * dt / 1_000_000
    } else {
        0
    }
}

/// Horizontal screen wrap: every entity re-enters from the right when
/// leaving on the left; only player-side entities also wrap on the right.
pub open spec fn spec_wrapped_x(x: int, is_player: bool) -> int {
    if x < 0 {
        x + WINDOW_WIDTH
    } else if x > WINDOW_WIDTH && is_player {
        x - WINDOW_WIDTH
    } else {
        x
    }
}

/// Largest distance one tick can move an entity.
pub const STEP_LIMIT: i64 = 90_000;

pub(crate) fn saturating_elapse(t: i64, dt: i64) -> (r: i64)
    requires
        0 <= t <= TIMER_CAP_MS,
        0 <= dt <= MAX_TICK_MS,
    ensures
        r == spec_saturating_elapse(t as int, dt as int),
        0 <= r <= TIMER_CAP_MS,
{
    if t > TIMER_CAP_MS - dt {
        TIMER_CAP_MS
    } else {
        t + dt
    }
}

pub(crate) fn scaled_step(v: i64, dt: i64) -> (r: i64)
    requires
        -HUMANS_WALK_SPEED <= v <= HUMANS_WALK_SPEED,
        0 <= dt <= MAX_TICK_MS,
    ensures
        r == spec_scaled_step(v as int, dt as int),
        -STEP_LIMIT <= r <= STEP_LIMIT,
{
    let mag: i64 = if v >= 0 { v } else { -v };
    assert(mag * dt * 60 <= HUMANS_WALK_SPEED * MAX_TICK_MS * 60) by (nonlinear_arith)
        requires
            0 <= mag <= HUMANS_WALK_SPEED,
            0 <= dt <= MAX_TICK_MS,
    ;
    assert(mag * dt * 60 >= 0) by (nonlinear_arith)
        requires
            0 <= mag,
            0 <= dt,
    ;
    let prod: i64 = mag * dt * 60;
    let step: i64 = prod / MILLI;
    assert((prod as int) / (MILLI as int) <= 90_000_000int / (MILLI as int)) by {
        vstd::arithmetic::div_mod::lemma_div_is_ordered(prod as int, 90_000_000int, MILLI as int);
    }
    if v >= 0 {
        step
    } else {
        -step
    }
}

pub(crate) fn decayed_velocity(v: i64, friction: i64, dt: i64) -> (r: i64)
    requires
        -HUMANS_WALK_SPEED <= v <= HUMANS_WALK_SPEED,
        0 <= friction <= MILLI,
        0 <= dt <= MAX_TICK_MS,
    ensures
        r == spec_decayed_velocity(v as int, friction as int, dt as int),
        v >= 0 ==> 0 <= r <= v,
        v <= 0 ==> v <= r <= 0,
{
    let mut v0: i64 = v;
    if -VELOCITY_EPSILON < v && v < VELOCITY_EPSILON {
        v0 = 0;
    }
    let mag: i64 = if v0 >= 0 { v0 } else { -v0 };
    assert(0 <= mag * friction * dt <= mag * 1_000_000) by (nonlinear_arith)
        requires
            0 <= mag,
            0 <= friction <= MILLI,
            0 <= dt <= MAX_TICK_MS,
    ;
    assert(mag * friction * dt <= HUMANS_WALK_SPEED * 1_000_000) by (nonlinear_arith)
        requires
            0 <= mag <= HUMANS_WALK_SPEED,
            0 <= friction <= MILLI,
            0 <= dt <= MAX_TICK_MS,
    ;
    assert(0 <= mag * friction <= HUMANS_WALK_SPEED * MILLI) by (nonlinear_arith)
        requires
            0 <= mag <= HUMANS_WALK_SPEED,
            0 <= friction <= MILLI,
    ;
    let decrement: i64 = mag * friction * dt / 1_000_000;
    assert(0 <= decrement <= mag) by {
        vstd::arithmetic::div_mod::lemma_div_is_ordered(0, (mag * friction * dt) as int, 1_000_000);
        vstd::arithmetic::div_mod::lemma_div_is_ordered(
            (mag * friction * dt) as int,
            mag * 1_000_000,
            1_000_000,
        );
        vstd::arithmetic::div_mod::lemma_div_by_multiple(mag as int, 1_000_000);
    }
    if v0 > 0 {
        v0 - decrement
    } else if v0 < 0 {
        v0 + decrement
    } else {
        0
    }
}

pub(crate) fn wrapped_x(x: i64, is_player: bool) -> (r: i64)
    requires
        -WINDOW_WIDTH <= x <= 2 * WINDOW_WIDTH,
    ensures
        r == spec_wrapped_x(x as int, is_player),
{
    if x < 0 {
        x + WINDOW_WIDTH
    } else if x > WINDOW_WIDTH && is_player {
        x - WINDOW_WIDTH
    } else {
        x
    }
}

} // verus!

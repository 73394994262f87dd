//! The computation behind HP-bar rendering: how much of a bar of a
//! given width is filled at the entity's current hit points.

use vstd::prelude::*;

verus! {

/// Width of the HP bar drawn over a unit.
pub const HUMAN_HP_BAR_WIDTH: i64 = 60_000;

/// Width of the HP bar drawn over a building.
pub const BUILDING_HP_BAR_WIDTH: i64 = 100_000;

/// Filled width of an HP bar: `bar_width * hp / max_hp`, never
/// negative and never past the bar's end.
pub fn hp_bar_fill(bar_width: i64, hp: i64, max_hp: i64) -> (r: i64)
    requires
        0 < max_hp <= 1_000_000_000,
        0 <= hp <= max_hp,
        0 <= bar_width <= 1_000_000_000,
    ensures
        r == (bar_width * hp) as int / (max_hp as int),
        0 <= r <= bar_width,
{
    assert(0 <= bar_width * hp <= bar_width * max_hp <= 1_000_000_000_000_000_000) by (nonlinear_arith)
        requires
            0 <= hp <= max_hp <= 1_000_000_000,
            0 <= bar_width <= 1_000_000_000,
    ;
    let r = bar_width * hp / max_hp;
    assert(0 <= (bar_width * hp) as int / (max_hp as int) <= bar_width as int) by {
        vstd::arithmetic::div_mod::lemma_div_is_ordered(0, (bar_width * hp) as int, max_hp as int);
        vstd::arithmetic::div_mod::lemma_div_is_ordered(
            (bar_width * hp) as int,
            (bar_width * max_hp) as int,
            max_hp as int,
        );
        vstd::arithmetic::div_mod::lemma_div_by_multiple(bar_width as int, max_hp as int);
    }
    r
}

} // verus!

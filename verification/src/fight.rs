//! Per-entity combat attributes and the clamped hit-point arithmetic
//! that every damage application goes through.

use vstd::prelude::*;
use crate::clamp_hp;
use crate::settings::DAMAGE_LIMIT;

verus! {

/// Mutable combat attributes of one entity.  `armor` and `is_infant`
/// (the melee flag) are part of the data model but no current combat
/// formula reads them: damage is always subtracted in full.
#[derive(Clone, Copy, Debug)]
pub struct EntityFightStatus {
    pub attack_damage: i64,
    pub armor: i64,
    pub is_infant: Option<bool>,
    pub hp: i64,
}

/// Mathematical view of `EntityFightStatus`.
pub ghost struct FightV {
    pub attack_damage: int,
    pub armor: int,
    pub is_infant: Option<bool>,
    pub hp: int,
}

impl View for EntityFightStatus {
    type V = FightV;

    open spec fn view(&self) -> FightV {
        FightV {
            attack_damage: self.attack_damage as int,
            armor: self.armor as int,
            is_infant: self.is_infant,
            hp: self.hp as int,
        }
    }
}

/// The hit points left after applying the queued damage amounts in
/// order, clamping into `[0, max_hp]` on every write.
pub open spec fn apply_damage_seq(hp: int, dmgs: Seq<int>, max_hp: int) -> int
    decreases dmgs.len(),
{
    if dmgs.len() == 0 {
        hp
    } else {
        apply_damage_seq(clamp_hp(hp - dmgs[0], max_hp), dmgs.skip(1), max_hp)
    }
}

/// View of a list of damage amounts.
pub open spec fn dmg_views(dmgs: Seq<i64>) -> Seq<int> {
    dmgs.map_values(|d: i64| d as int)
}

/// Run the clamped damage application over a list of damage amounts and
/// return the resulting hit points.
pub(crate) fn apply_damage_core(hp: i64, dmgs: &Vec<i64>, max_hp: i64) -> (r: i64)
    requires
        0 <= hp <= max_hp,
        0 < max_hp <= 1_000_000_000,
        forall|k: int| 0 <= k < dmgs@.len() ==> 0 <= #[trigger] dmgs@[k] <= DAMAGE_LIMIT,
    ensures
        r == apply_damage_seq(hp as int, dmg_views(dmgs@), max_hp as int),
        0 <= r <= max_hp,
{
    let mut current: i64 = hp;
    let mut i: usize = 0;
    proof {
        assert(dmg_views(dmgs@).skip(0) =~= dmg_views(dmgs@));
    }
    while i < dmgs.len()
        invariant
            0 <= current <= max_hp,
            0 < max_hp <= 1_000_000_000,
            0 <= i <= dmgs@.len(),
            forall|k: int| 0 <= k < dmgs@.len() ==> 0 <= #[trigger] dmgs@[k] <= DAMAGE_LIMIT,
            apply_damage_seq(hp as int, dmg_views(dmgs@), max_hp as int) == apply_damage_seq(
                current as int,
                dmg_views(dmgs@).skip(i as int),
                max_hp as int,
            ),
        decreases dmgs@.len() - i,
    {
        let d: i64 = dmgs[i];
        let proposed: i64 = current - d;
        let next: i64 = if proposed < 0 {
            0
        } else if proposed > max_hp {
            max_hp
        } else {
            proposed
        };
        proof {
            let ghost tail = dmg_views(dmgs@).skip(i as int);
            assert(tail[0] == d as int);
            assert(tail.skip(1) =~= dmg_views(dmgs@).skip(i as int + 1));
            assert(next as int == clamp_hp(current as int - d as int, max_hp as int));
        }
        current = next;
        i = i + 1;
    }
    current
}

} // verus!

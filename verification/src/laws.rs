//! Laws of the combat resolution pass, stated and proved once over the
//! specification functions that the executable contracts use.

use vstd::prelude::*;
use crate::clamp_hp;
use crate::events::{drop_matching, matching_dmgs, AttackInfoV};
use crate::fight::apply_damage_seq;
use crate::human::{human_first_target, human_reach_hits, human_update_spec, HumanState, HumanV};
use crate::motion::{spec_scaled_step, EnemyComing, Vec2V};
use crate::posmap::id_contains;
use crate::settings::{HUMANS_WALK_SPEED, MAX_TICK_MS};

verus! {

/// Law: resolving an already-empty pending-event queue is a no-op —
/// no damage is applied, the queue stays empty, and no id counts as
/// pending.
pub proof fn lemma_resolve_empty_noop(hp: int, id: u32, max_hp: int)
    ensures
        matching_dmgs(Seq::<AttackInfoV>::empty(), id) == Seq::<int>::empty(),
        apply_damage_seq(hp, matching_dmgs(Seq::<AttackInfoV>::empty(), id), max_hp) == hp,
        drop_matching(Seq::<AttackInfoV>::empty(), id) == Seq::<AttackInfoV>::empty(),
        !id_contains(Seq::<u32>::empty(), id),
{
    assert(matching_dmgs(Seq::<AttackInfoV>::empty(), id) =~= Seq::<int>::empty());
    assert(drop_matching(Seq::<AttackInfoV>::empty(), id) =~= Seq::<AttackInfoV>::empty());
}

/// Law: damage delivery is exactly once per queued event per tick.
/// With exactly two amounts queued against a target its hit points
/// take both, in order, each through the clamped write; with none
/// queued they do not change.
pub proof fn lemma_damage_exactly_once(
    hp: int,
    max_hp: int,
    id: u32,
    d1: int,
    d2: int,
    evs: Seq<AttackInfoV>,
)
    ensures
        matching_dmgs(evs, id) == seq![d1, d2] ==> apply_damage_seq(
            hp,
            matching_dmgs(evs, id),
            max_hp,
        ) == clamp_hp(clamp_hp(hp - d1, max_hp) - d2, max_hp),
        matching_dmgs(evs, id) == Seq::<int>::empty() ==> apply_damage_seq(
            hp,
            matching_dmgs(evs, id),
            max_hp,
        ) == hp,
{
    if matching_dmgs(evs, id) == seq![d1, d2] {
        let s = matching_dmgs(evs, id);
        assert(s.len() == 2);
        assert(s[0] == d1);
        assert(s.skip(1) =~= seq![d2]);
        assert(s.skip(1)[0] == d2);
        assert(s.skip(1).skip(1) =~= Seq::<int>::empty());
        let hp1 = clamp_hp(hp - d1, max_hp);
        let hp2 = clamp_hp(hp1 - d2, max_hp);
        assert(apply_damage_seq(hp, s, max_hp) == apply_damage_seq(hp1, s.skip(1), max_hp));
        assert(apply_damage_seq(hp1, s.skip(1), max_hp) == apply_damage_seq(
            hp2,
            s.skip(1).skip(1),
            max_hp,
        ));
        assert(apply_damage_seq(hp2, Seq::<int>::empty(), max_hp) == hp2);
    }
}

/// No rival lies within the human's reach, even after this tick's
/// run-step toward the default direction.
pub open spec fn rivals_beyond_reach(h: HumanV, dt: int, rivals: Seq<(u32, Vec2V)>) -> bool {
    forall|k: int|
        0 <= k < rivals.len() ==> h.x + spec_scaled_step(HUMANS_WALK_SPEED as int, dt) + h.size_x
            / 2 <= (#[trigger] rivals[k]).1.x - h.size_x / 2
}

/// A human that hits no rival acquires no target.
proof fn lemma_no_target_when_none_hit(h: HumanV, rivals: Seq<(u32, Vec2V)>)
    requires
        forall|k: int|
            0 <= k < rivals.len() ==> !human_reach_hits(h, (#[trigger] rivals[k]).1.x),
    ensures
        human_first_target(h, rivals) == None::<u32>,
    decreases rivals.len(),
{
    if rivals.len() > 0 {
        assert(!human_reach_hits(h, rivals[0].1.x));
        assert(forall|k: int|
            0 <= k < rivals.skip(1).len() ==> #[trigger] rivals.skip(1)[k] == rivals[k + 1]);
        lemma_no_target_when_none_hit(h, rivals.skip(1));
    }
}

/// Law: a human in the `Running` state with no latched
/// opposing-direction signal, no opposing signal this tick, and no
/// rival within its post-move reach goes back to `Walking` and clears
/// its target and direction within the one tick.  (A rival that comes
/// into reach during the same tick's move is re-acquired instead, and
/// the human ends the tick `Attacking`.)
pub proof fn lemma_running_without_signal_disengages(
    h: HumanV,
    dt: int,
    rivals: Seq<(u32, Vec2V)>,
    draw: u64,
)
    requires
        h.wf(),
        0 <= dt <= MAX_TICK_MS,
        h.state == HumanState::Running,
        h.enemy_dir == None::<EnemyComing>,
        rivals_beyond_reach(h, dt, rivals),
    ensures
        human_update_spec(h, dt, None, rivals, draw).state == HumanState::Walking,
        human_update_spec(h, dt, None, rivals, draw).attack_target == None::<(u32, int)>,
        human_update_spec(h, dt, None, rivals, draw).enemy_dir == None::<EnemyComing>,
{
    let h1 = crate::human::human_elapse(h, dt);
    assert(crate::human::human_latch(h1, None) == h1);
    assert(crate::human::human_disengage(h1, None) == h1);
    let h2 = crate::human::human_behaviour(h1, dt, rivals, draw);
    let moved = HumanV {
        state: HumanState::Walking,
        attack_target: None,
        enemy_dir: None,
        x: h1.x + spec_scaled_step(HUMANS_WALK_SPEED as int, dt),
        velocity: HUMANS_WALK_SPEED as int,
        ..h1
    };
    assert forall|k: int| 0 <= k < rivals.len() implies !human_reach_hits(
        moved,
        (#[trigger] rivals[k]).1.x,
    ) by {
        assert(h.x + spec_scaled_step(HUMANS_WALK_SPEED as int, dt) + h.size_x / 2 <= rivals[k].1.x
            - h.size_x / 2);
    }
    lemma_no_target_when_none_hit(moved, rivals);
    assert(h2.state == HumanState::Walking && h2.attack_target == None::<(u32, int)> && h2.enemy_dir
        == None::<EnemyComing>);
}

} // verus!

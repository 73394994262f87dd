//! The game: both rosters with their position indexes, the defended
//! buildings, the pending-event queues, and the per-tick simulation
//! step that drives them all from one shared delta-time.

use vstd::prelude::*;
use crate::building::{building_max_hp, BaseGround, Building, BuildingType, BuildingV};
use crate::enemy::{
    buildings_bounded, enemy_attack_output, enemy_update_spec, Enemy, EnemyV, BUILDING_COUNT_LIMIT,
};
use crate::events::{
    drop_matching, ev_views, evs_wf, lemma_drop_matching_wf, lemma_matching_dmgs_wf, matching_dmgs,
    AttackInfo, AttackInfoV,
};
use crate::fight::{apply_damage_seq, dmg_views};
use crate::human::{human_attack_output, human_update_spec, Human, HumanV};
use crate::motion::{EnemyComing, Vec2, Vec2V};
use crate::posmap::{
    id_contains, id_no_dup, pm_bounded, pm_contains, pm_no_dup, spec_insert_id, spec_insert_pos,
    spec_remove_id, spec_remove_pos, IdSet, PositionMap,
};
use crate::settings::{
    BUILDING_ATTACK_DAMAGE, BUILDING_BASE_MAX_HP, BUILDING_ID_BIAS, BUILDING_POS_X, BUILDING_SIZE,
    DAMAGE_LIMIT, DRAW_BOUND, ENEMY_SPAWN_X, FRICTION, GROUND_POS_Y, HUMANS_MAX_HP, HUMAN_SPAWN_X,
    MAX_TICK_MS, UNIT_ATTACK_DAMAGE, UNIT_SIZE_X, UNIT_SIZE_Y,
};

verus! {

/// Views of a human roster.
pub open spec fn humans_views(hs: Seq<Human>) -> Seq<HumanV> {
    hs.map_values(|h: Human| h@)
}

/// Views of an enemy roster.
pub open spec fn enemies_views(es: Seq<Enemy>) -> Seq<EnemyV> {
    es.map_values(|e: Enemy| e@)
}

/// Views of the building roster.
pub open spec fn buildings_views(bs: Seq<Building>) -> Seq<BuildingV> {
    bs.map_values(|b: Building| b@)
}

/// Views of a list of positions.
pub open spec fn vec2_views(ps: Seq<Vec2>) -> Seq<Vec2V> {
    ps.map_values(|p: Vec2| p@)
}

/// Whether some human in the roster carries this id.
pub open spec fn human_has_id(hs: Seq<HumanV>, id: u32) -> bool {
    exists|i: int| 0 <= i < hs.len() && (#[trigger] hs[i]).id == id
}

/// Whether some enemy in the roster carries this id.
pub open spec fn enemy_has_id(es: Seq<EnemyV>, id: u32) -> bool {
    exists|i: int| 0 <= i < es.len() && (#[trigger] es[i]).id == id
}

/// Every id in a pending set has at least one matching queued event:
/// the pending-queue invariant an id set keeps with its event list.
pub open spec fn ids_covered(ids: Seq<u32>, evs: Seq<AttackInfoV>) -> bool {
    forall|k: int| 0 <= k < ids.len() ==> matching_dmgs(evs, #[trigger] ids[k]).len() > 0
}

/// Consuming one id's events and clearing it from the pending set
/// keeps every remaining pending id covered by the queue.
proof fn lemma_covered_after_consume(ids: Seq<u32>, evs: Seq<AttackInfoV>, id: u32)
    requires
        id_no_dup(ids),
        ids_covered(ids, evs),
    ensures
        ids_covered(spec_remove_id(ids, id), drop_matching(evs, id)),
{
    crate::posmap::lemma_id_index_of(ids, id);
    let t = spec_remove_id(ids, id);
    let k = crate::posmap::id_index_of(ids, id);
    assert forall|j: int| 0 <= j < t.len() implies matching_dmgs(
        drop_matching(evs, id),
        #[trigger] t[j],
    ).len() > 0 by {
        let j0 = if k >= 0 && j >= k {
            j + 1
        } else {
            j
        };
        assert(t[j] == ids[j0]);
        if k >= 0 {
            if j0 < k {
                assert(ids[j0] != id);
            } else if j0 > k {
                assert(ids[k] != ids[j0]);
            }
        }
        assert(ids[j0] != id);
        crate::events::lemma_drop_matching_other(evs, id, ids[j0]);
    }
}

/// Queueing an attack — its event pushed, its target's id inserted —
/// keeps every pending id covered by the queue.
proof fn lemma_covered_after_queue(ids: Seq<u32>, evs: Seq<AttackInfoV>, e: AttackInfoV)
    requires
        ids_covered(ids, evs),
    ensures
        ids_covered(spec_insert_id(ids, e.attacked_id), evs.push(e)),
{
    let t = spec_insert_id(ids, e.attacked_id);
    assert forall|j: int| 0 <= j < t.len() implies matching_dmgs(
        evs.push(e),
        #[trigger] t[j],
    ).len() > 0 by {
        crate::events::lemma_matching_push(evs, e, t[j]);
        if j < ids.len() {
            assert(t[j] == ids[j]);
            assert(matching_dmgs(evs, ids[j]).len() > 0);
        } else {
            assert(t[j] == e.attacked_id);
        }
    }
}

/// The whole game state.
pub struct Game {
    pub humans: Vec<Human>,
    pub humans_pos_list: PositionMap,
    pub enemies: Vec<Enemy>,
    pub buildings: Vec<Building>,
    pub buildings_pos_list: Vec<Vec2>,
    pub base_ground: Vec<BaseGround>,
    pub enemies_pos_list: PositionMap,
    pub is_paused: bool,
    pub is_game_over: bool,
    /// Damage queued against the player side (humans and buildings).
    pub attacked_human_list: Vec<AttackInfo>,
    pub attacked_human_ids: IdSet,
    /// Damage queued against the enemy side.
    pub attacked_enemy_list: Vec<AttackInfo>,
    pub attacked_enemy_ids: IdSet,
    /// Which side the enemies approach the humans from.
    pub enemy_coming: Option<EnemyComing>,
}

/// Mathematical view of the whole game state.
#[verifier::ext_equal]
pub ghost struct GameV {
    pub humans: Seq<HumanV>,
    pub humans_pos: Seq<(u32, Vec2V)>,
    pub enemies: Seq<EnemyV>,
    pub enemies_pos: Seq<(u32, Vec2V)>,
    pub buildings: Seq<BuildingV>,
    pub buildings_pos: Seq<Vec2V>,
    pub is_paused: bool,
    pub is_game_over: bool,
    pub attacked_human_list: Seq<AttackInfoV>,
    pub attacked_human_ids: Seq<u32>,
    pub attacked_enemy_list: Seq<AttackInfoV>,
    pub attacked_enemy_ids: Seq<u32>,
    pub enemy_coming: Option<EnemyComing>,
}

impl View for Game {
    type V = GameV;

    open spec fn view(&self) -> GameV {
        GameV {
            humans: humans_views(self.humans@),
            humans_pos: self.humans_pos_list@,
            enemies: enemies_views(self.enemies@),
            enemies_pos: self.enemies_pos_list@,
            buildings: buildings_views(self.buildings@),
            buildings_pos: vec2_views(self.buildings_pos_list@),
            is_paused: self.is_paused,
            is_game_over: self.is_game_over,
            attacked_human_list: ev_views(self.attacked_human_list@),
            attacked_human_ids: self.attacked_human_ids@,
            attacked_enemy_list: ev_views(self.attacked_enemy_list@),
            attacked_enemy_ids: self.attacked_enemy_ids@,
            enemy_coming: self.enemy_coming,
        }
    }
}

impl GameV {
    /// The game invariant: every entity is well-formed, ids are unique
    /// in each roster, and each position index mirrors its roster —
    /// every live entity has exactly one entry and vice versa, with
    /// matching cardinality.
    pub open spec fn wf(self) -> bool {
        &&& forall|i: int| 0 <= i < self.humans.len() ==> (#[trigger] self.humans[i]).wf()
        &&& forall|i: int| 0 <= i < self.enemies.len() ==> (#[trigger] self.enemies[i]).wf()
        &&& forall|i: int| 0 <= i < self.buildings.len() ==> (#[trigger] self.buildings[i]).wf()
        &&& 1 <= self.buildings.len() <= BUILDING_COUNT_LIMIT
        &&& self.buildings_pos.len() <= BUILDING_COUNT_LIMIT
        &&& buildings_bounded(self.buildings_pos)
        &&& forall|i: int, j: int|
            0 <= i < j < self.humans.len() ==> (#[trigger] self.humans[i]).id != (
            #[trigger] self.humans[j]).id
        &&& forall|i: int, j: int|
            0 <= i < j < self.enemies.len() ==> (#[trigger] self.enemies[i]).id != (
            #[trigger] self.enemies[j]).id
        &&& pm_no_dup(self.humans_pos)
        &&& pm_bounded(self.humans_pos)
        &&& pm_no_dup(self.enemies_pos)
        &&& pm_bounded(self.enemies_pos)
        &&& forall|i: int|
            0 <= i < self.humans.len() ==> pm_contains(
                self.humans_pos,
                (#[trigger] self.humans[i]).id,
            )
        &&& forall|id: u32|
            #[trigger] pm_contains(self.humans_pos, id) ==> human_has_id(self.humans, id)
        &&& self.humans_pos.len() == self.humans.len()
        &&& forall|i: int|
            0 <= i < self.enemies.len() ==> pm_contains(
                self.enemies_pos,
                (#[trigger] self.enemies[i]).id,
            )
        &&& forall|id: u32|
            #[trigger] pm_contains(self.enemies_pos, id) ==> enemy_has_id(self.enemies, id)
        &&& self.enemies_pos.len() == self.enemies.len()
        &&& evs_wf(self.attacked_human_list)
        &&& evs_wf(self.attacked_enemy_list)
        &&& id_no_dup(self.attacked_human_ids)
        &&& id_no_dup(self.attacked_enemy_ids)
        &&& ids_covered(self.attacked_human_ids, self.attacked_human_list)
        &&& ids_covered(self.attacked_enemy_ids, self.attacked_enemy_list)
    }
}

/// The building resolution pass, building by building: one whose id is
/// in the pending set takes every matching queued event's damage
/// through the clamped hit-point write; the consumed events and the id
/// leave the queue.
pub open spec fn building_pass_rec(
    bs: Seq<BuildingV>,
    evs: Seq<AttackInfoV>,
    ids: Seq<u32>,
) -> (Seq<BuildingV>, Seq<AttackInfoV>, Seq<u32>)
    decreases bs.len(),
{
    if bs.len() == 0 {
        (bs, evs, ids)
    } else {
        let b = bs[0];
        if id_contains(ids, b.id) {
            let b2 = BuildingV {
                hp: apply_damage_seq(
                    b.hp,
                    matching_dmgs(evs, b.id),
                    building_max_hp(b.building_type),
                ),
                ..b
            };
            let rest = building_pass_rec(
                bs.skip(1),
                drop_matching(evs, b.id),
                spec_remove_id(ids, b.id),
            );
            (seq![b2] + rest.0, rest.1, rest.2)
        } else {
            let rest = building_pass_rec(bs.skip(1), evs, ids);
            (seq![b] + rest.0, rest.1, rest.2)
        }
    }
}

/// First phase of a tick: buildings absorb their queued damage, then
/// the whole player-side pending queue is cleared unconditionally —
/// only one wave of events per tick is honoured.
pub open spec fn building_phase(g: GameV) -> GameV {
    let r = building_pass_rec(g.buildings, g.attacked_human_list, g.attacked_human_ids);
    GameV {
        buildings: r.0,
        attacked_human_list: Seq::empty(),
        attacked_human_ids: Seq::empty(),
        ..g
    }
}

/// The state threaded through one roster sweep: the entities already
/// processed, the ids marked dead, the pending queue being consumed,
/// the queue being filled for the opposing side, and the roster's
/// position index.
#[verifier::ext_equal]
pub ghost struct EnemySweep {
    pub enemies: Seq<EnemyV>,
    pub dead: Seq<u32>,
    pub in_evs: Seq<AttackInfoV>,
    pub in_ids: Seq<u32>,
    pub out_evs: Seq<AttackInfoV>,
    pub out_ids: Seq<u32>,
    pub pos: Seq<(u32, Vec2V)>,
}

/// The enemy sweep, enemy by enemy: one already out of hit points is
/// marked dead and skipped; a live one takes its queued damage, learns
/// the building positions, runs its full update against the humans'
/// position index, and queues its outgoing attack, if any, against the
/// player side.
pub open spec fn enemy_sweep_rec(
    st: EnemySweep,
    rest: Seq<EnemyV>,
    dt: int,
    rivals: Seq<(u32, Vec2V)>,
    bpos: Seq<Vec2V>,
) -> EnemySweep
    decreases rest.len(),
{
    if rest.len() == 0 {
        st
    } else {
        let e = rest[0];
        let st1 = if e.hp <= 0 {
            EnemySweep { enemies: st.enemies.push(e), dead: st.dead.push(e.id), ..st }
        } else {
            let hp1 = if id_contains(st.in_ids, e.id) {
                apply_damage_seq(e.hp, matching_dmgs(st.in_evs, e.id), HUMANS_MAX_HP as int)
            } else {
                e.hp
            };
            let evs1 = if id_contains(st.in_ids, e.id) {
                drop_matching(st.in_evs, e.id)
            } else {
                st.in_evs
            };
            let ids1 = if id_contains(st.in_ids, e.id) {
                spec_remove_id(st.in_ids, e.id)
            } else {
                st.in_ids
            };
            let e1 = EnemyV { hp: hp1, building_pos: bpos, ..e };
            let e2 = enemy_update_spec(e1, dt, Some(EnemyComing::Left), rivals);
            let oevs = match enemy_attack_output(e2) {
                Some((tid, dmg)) => st.out_evs.push(AttackInfoV { attacked_id: tid, dmg }),
                None => st.out_evs,
            };
            let oids = match enemy_attack_output(e2) {
                Some((tid, _)) => spec_insert_id(st.out_ids, tid),
                None => st.out_ids,
            };
            EnemySweep {
                enemies: st.enemies.push(e2),
                dead: st.dead,
                in_evs: evs1,
                in_ids: ids1,
                out_evs: oevs,
                out_ids: oids,
                pos: spec_insert_pos(st.pos, e2.id, Vec2V { x: e2.x, y: e2.y }),
            }
        };
        enemy_sweep_rec(st1, rest.skip(1), dt, rivals, bpos)
    }
}

/// The sweep state an enemy phase starts from.
pub open spec fn enemy_sweep_start(g: GameV) -> EnemySweep {
    EnemySweep {
        enemies: Seq::empty(),
        dead: Seq::empty(),
        in_evs: g.attacked_enemy_list,
        in_ids: g.attacked_enemy_ids,
        out_evs: g.attacked_human_list,
        out_ids: g.attacked_human_ids,
        pos: g.enemies_pos,
    }
}

/// The sweep state the enemy phase ends in.
pub open spec fn enemy_sweep_result(g: GameV, dt: int) -> EnemySweep {
    enemy_sweep_rec(enemy_sweep_start(g), g.enemies, dt, g.humans_pos, g.buildings_pos)
}

/// The game with an enemy sweep's result written back.  After the
/// sweep the enemy roster's own pending queue and id set are cleared
/// unconditionally, entries never consumed included: only one wave of
/// events per tick is honoured per roster.
pub open spec fn apply_enemy_sweep(g: GameV, st: EnemySweep) -> GameV {
    GameV {
        enemies: st.enemies,
        enemies_pos: st.pos,
        attacked_enemy_list: Seq::empty(),
        attacked_enemy_ids: Seq::empty(),
        attacked_human_list: st.out_evs,
        attacked_human_ids: st.out_ids,
        ..g
    }
}

/// The state threaded through the human sweep: as for the enemies,
/// plus the tick's remaining uniform draws, one consumed per roster
/// slot.
#[verifier::ext_equal]
pub ghost struct HumanSweep {
    pub humans: Seq<HumanV>,
    pub dead: Seq<u32>,
    pub in_evs: Seq<AttackInfoV>,
    pub in_ids: Seq<u32>,
    pub out_evs: Seq<AttackInfoV>,
    pub out_ids: Seq<u32>,
    pub pos: Seq<(u32, Vec2V)>,
    pub draws: Seq<u64>,
}

/// The human sweep, human by human: one already out of hit points is
/// marked dead and skipped; a live one takes its queued damage, runs
/// its full update against the enemies' position index using this
/// slot's uniform draw, and queues its outgoing attack, if any,
/// against the enemy side.
pub open spec fn human_sweep_rec(
    st: HumanSweep,
    rest: Seq<HumanV>,
    dt: int,
    rival_coming: Option<EnemyComing>,
    rivals: Seq<(u32, Vec2V)>,
) -> HumanSweep
    decreases rest.len(),
{
    if rest.len() == 0 {
        st
    } else {
        let h = rest[0];
        let st1 = if h.hp <= 0 {
            HumanSweep {
                humans: st.humans.push(h),
                dead: st.dead.push(h.id),
                draws: st.draws.skip(1),
                ..st
            }
        } else {
            let hp1 = if id_contains(st.in_ids, h.id) {
                apply_damage_seq(h.hp, matching_dmgs(st.in_evs, h.id), HUMANS_MAX_HP as int)
            } else {
                h.hp
            };
            let evs1 = if id_contains(st.in_ids, h.id) {
                drop_matching(st.in_evs, h.id)
            } else {
                st.in_evs
            };
            let ids1 = if id_contains(st.in_ids, h.id) {
                spec_remove_id(st.in_ids, h.id)
            } else {
                st.in_ids
            };
            let draw = if st.draws.len() > 0 {
                st.draws[0]
            } else {
                0
            };
            let h1 = HumanV { hp: hp1, ..h };
            let h2 = human_update_spec(h1, dt, rival_coming, rivals, draw);
            let oevs = match human_attack_output(h2) {
                Some((tid, dmg)) => st.out_evs.push(AttackInfoV { attacked_id: tid, dmg }),
                None => st.out_evs,
            };
            let oids = match human_attack_output(h2) {
                Some((tid, _)) => spec_insert_id(st.out_ids, tid),
                None => st.out_ids,
            };
            HumanSweep {
                humans: st.humans.push(h2),
                dead: st.dead,
                in_evs: evs1,
                in_ids: ids1,
                out_evs: oevs,
                out_ids: oids,
                pos: spec_insert_pos(st.pos, h2.id, Vec2V { x: h2.x, y: h2.y }),
                draws: st.draws.skip(1),
            }
        };
        human_sweep_rec(st1, rest.skip(1), dt, rival_coming, rivals)
    }
}

/// The sweep state a human phase starts from.
pub open spec fn human_sweep_start(g: GameV, draws: Seq<u64>) -> HumanSweep {
    HumanSweep {
        humans: Seq::empty(),
        dead: Seq::empty(),
        in_evs: g.attacked_human_list,
        in_ids: g.attacked_human_ids,
        out_evs: g.attacked_enemy_list,
        out_ids: g.attacked_enemy_ids,
        pos: g.humans_pos,
        draws,
    }
}

/// The sweep state the human phase ends in.
pub open spec fn human_sweep_result(g: GameV, dt: int, draws: Seq<u64>) -> HumanSweep {
    human_sweep_rec(human_sweep_start(g, draws), g.humans, dt, g.enemy_coming, g.enemies_pos)
}

/// The game with a human sweep's result written back.
pub open spec fn apply_human_sweep(g: GameV, st: HumanSweep) -> GameV {
    GameV {
        humans: st.humans,
        humans_pos: st.pos,
        attacked_human_list: st.in_evs,
        attacked_human_ids: st.in_ids,
        attacked_enemy_list: st.out_evs,
        attacked_enemy_ids: st.out_ids,
        ..g
    }
}

/// Index of the first human carrying this id, or `-1`.
pub open spec fn human_index_of(hs: Seq<HumanV>, id: u32) -> int
    decreases hs.len(),
{
    if hs.len() == 0 {
        -1
    } else if hs[0].id == id {
        0
    } else {
        let r = human_index_of(hs.skip(1), id);
        if r < 0 {
            -1
        } else {
            r + 1
        }
    }
}

/// The roster with the first human carrying this id taken out.
pub open spec fn remove_human_by_id(hs: Seq<HumanV>, id: u32) -> Seq<HumanV> {
    if human_index_of(hs, id) >= 0 {
        hs.remove(human_index_of(hs, id))
    } else {
        hs
    }
}

/// What `human_index_of` returns: the first matching index, or `-1`
/// with no match anywhere.
pub proof fn lemma_human_index_of(hs: Seq<HumanV>, id: u32)
    ensures
        human_index_of(hs, id) == -1 || 0 <= human_index_of(hs, id) < hs.len(),
        human_index_of(hs, id) >= 0 ==> hs[human_index_of(hs, id)].id == id,
        human_index_of(hs, id) >= 0 ==> forall|j: int|
            0 <= j < human_index_of(hs, id) ==> (#[trigger] hs[j]).id != id,
        human_index_of(hs, id) == -1 ==> forall|j: int|
            0 <= j < hs.len() ==> (#[trigger] hs[j]).id != id,
    decreases hs.len(),
{
    if hs.len() > 0 && hs[0].id != id {
        lemma_human_index_of(hs.skip(1), id);
        assert(forall|j: int| 1 <= j < hs.len() ==> #[trigger] hs[j] == hs.skip(1)[j - 1]);
    }
}

/// Index of the first enemy carrying this id, or `-1`.
pub open spec fn enemy_index_of(es: Seq<EnemyV>, id: u32) -> int
    decreases es.len(),
{
    if es.len() == 0 {
        -1
    } else if es[0].id == id {
        0
    } else {
        let r = enemy_index_of(es.skip(1), id);
        if r < 0 {
            -1
        } else {
            r + 1
        }
    }
}

/// The roster with the first enemy carrying this id taken out.
pub open spec fn remove_enemy_by_id(es: Seq<EnemyV>, id: u32) -> Seq<EnemyV> {
    if enemy_index_of(es, id) >= 0 {
        es.remove(enemy_index_of(es, id))
    } else {
        es
    }
}

/// What `enemy_index_of` returns: the first matching index, or `-1`
/// with no match anywhere.
pub proof fn lemma_enemy_index_of(es: Seq<EnemyV>, id: u32)
    ensures
        enemy_index_of(es, id) == -1 || 0 <= enemy_index_of(es, id) < es.len(),
        enemy_index_of(es, id) >= 0 ==> es[enemy_index_of(es, id)].id == id,
        enemy_index_of(es, id) >= 0 ==> forall|j: int|
            0 <= j < enemy_index_of(es, id) ==> (#[trigger] es[j]).id != id,
        enemy_index_of(es, id) == -1 ==> forall|j: int|
            0 <= j < es.len() ==> (#[trigger] es[j]).id != id,
    decreases es.len(),
{
    if es.len() > 0 && es[0].id != id {
        lemma_enemy_index_of(es.skip(1), id);
        assert(forall|j: int| 1 <= j < es.len() ==> #[trigger] es[j] == es.skip(1)[j - 1]);
    }
}

/// Destruction of the dead humans, id by id: each leaves the roster,
/// the position index, and the pending-event queue and id set.
pub open spec fn purge_humans_rec(
    hs: Seq<HumanV>,
    pos: Seq<(u32, Vec2V)>,
    evs: Seq<AttackInfoV>,
    ids: Seq<u32>,
    dead_ids: Seq<u32>,
) -> (Seq<HumanV>, Seq<(u32, Vec2V)>, Seq<AttackInfoV>, Seq<u32>)
    decreases dead_ids.len(),
{
    if dead_ids.len() == 0 {
        (hs, pos, evs, ids)
    } else {
        let id = dead_ids[0];
        purge_humans_rec(
            remove_human_by_id(hs, id),
            spec_remove_pos(pos, id),
            drop_matching(evs, id),
            spec_remove_id(ids, id),
            dead_ids.skip(1),
        )
    }
}

/// The game with the dead humans destroyed.
pub open spec fn purge_humans_phase(g: GameV, dead_ids: Seq<u32>) -> GameV {
    let r = purge_humans_rec(
        g.humans,
        g.humans_pos,
        g.attacked_human_list,
        g.attacked_human_ids,
        dead_ids,
    );
    GameV {
        humans: r.0,
        humans_pos: r.1,
        attacked_human_list: r.2,
        attacked_human_ids: r.3,
        ..g
    }
}

/// Destruction of the dead enemies, id by id, symmetrically.
pub open spec fn purge_enemies_rec(
    es: Seq<EnemyV>,
    pos: Seq<(u32, Vec2V)>,
    evs: Seq<AttackInfoV>,
    ids: Seq<u32>,
    dead_ids: Seq<u32>,
) -> (Seq<EnemyV>, Seq<(u32, Vec2V)>, Seq<AttackInfoV>, Seq<u32>)
    decreases dead_ids.len(),
{
    if dead_ids.len() == 0 {
        (es, pos, evs, ids)
    } else {
        let id = dead_ids[0];
        purge_enemies_rec(
            remove_enemy_by_id(es, id),
            spec_remove_pos(pos, id),
            drop_matching(evs, id),
            spec_remove_id(ids, id),
            dead_ids.skip(1),
        )
    }
}

/// The game with the dead enemies destroyed.
pub open spec fn purge_enemies_phase(g: GameV, dead_ids: Seq<u32>) -> GameV {
    let r = purge_enemies_rec(
        g.enemies,
        g.enemies_pos,
        g.attacked_enemy_list,
        g.attacked_enemy_ids,
        dead_ids,
    );
    GameV {
        enemies: r.0,
        enemies_pos: r.1,
        attacked_enemy_list: r.2,
        attacked_enemy_ids: r.3,
        ..g
    }
}

/// Last phase of a tick: the game is over once the base building — the
/// first building — is out of hit points.
pub open spec fn game_over_phase(g: GameV) -> GameV {
    if g.buildings.len() > 0 && g.buildings[0].hp <= 0 {
        GameV { is_game_over: true, ..g }
    } else {
        g
    }
}

/// One full simulation tick.  A paused or finished game changes
/// nothing.  Otherwise, in fixed order: buildings absorb queued damage
/// and the player-side queue is cleared; the enemy roster is swept and
/// its own pending queue is then cleared unconditionally; the human
/// roster is swept, consuming what the enemies just queued; the dead
/// of both rosters are destroyed; and the terminal condition is
/// evaluated.
pub open spec fn tick_spec(g: GameV, dt: int, draws: Seq<u64>) -> GameV {
    if g.is_paused || g.is_game_over {
        g
    } else {
        let g1 = building_phase(g);
        let est = enemy_sweep_result(g1, dt);
        let g2 = apply_enemy_sweep(g1, est);
        let hst = human_sweep_result(g2, dt, draws);
        let g3 = apply_human_sweep(g2, hst);
        let g4 = purge_humans_phase(g3, hst.dead);
        let g5 = purge_enemies_phase(g4, est.dead);
        game_over_phase(g5)
    }
}

impl Game {
    /// A fresh game: one human, one enemy, the base building, the
    /// ground, and an empty pending queue on each side.
    pub fn new() -> (r: Game)
        ensures
            r@.wf(),
            r.is_paused == false,
            r.is_game_over == false,
            r@.humans == seq![
                HumanV {
                    id: 0,
                    x: HUMAN_SPAWN_X as int,
                    y: GROUND_POS_Y as int,
                    size_x: UNIT_SIZE_X as int,
                    size_y: UNIT_SIZE_Y as int,
                    state: crate::human::HumanState::Idle,
                    state_ms: 0,
                    attack_ms: 0,
                    velocity: 0,
                    friction: FRICTION as int,
                    attack_damage: UNIT_ATTACK_DAMAGE as int,
                    armor: 0,
                    is_infant: None,
                    hp: HUMANS_MAX_HP as int,
                    attack_target: None,
                    enemy_dir: None,
                },
            ],
            r@.enemies == seq![
                EnemyV {
                    id: 0,
                    x: ENEMY_SPAWN_X as int,
                    y: GROUND_POS_Y as int,
                    size_x: UNIT_SIZE_X as int,
                    size_y: UNIT_SIZE_Y as int,
                    state: crate::enemy::EnemyState::Running,
                    state_ms: 0,
                    attack_ms: 0,
                    velocity: 0,
                    friction: FRICTION as int,
                    attack_damage: UNIT_ATTACK_DAMAGE as int,
                    armor: 0,
                    is_infant: None,
                    hp: HUMANS_MAX_HP as int,
                    attack_target: None,
                    rival_direction: None,
                    building_pos: Seq::empty(),
                },
            ],
            r@.buildings == seq![
                BuildingV {
                    x: BUILDING_POS_X as int,
                    y: GROUND_POS_Y as int,
                    size_x: BUILDING_SIZE as int,
                    size_y: BUILDING_SIZE as int,
                    attack_damage: BUILDING_ATTACK_DAMAGE as int,
                    armor: 0,
                    is_infant: None,
                    hp: BUILDING_BASE_MAX_HP as int,
                    building_type: BuildingType::Base,
                    id: BUILDING_ID_BIAS,
                },
            ],
            r@.humans_pos == seq![
                (0u32, Vec2V { x: HUMAN_SPAWN_X as int, y: GROUND_POS_Y as int }),
            ],
            r@.enemies_pos == seq![
                (0u32, Vec2V { x: ENEMY_SPAWN_X as int, y: GROUND_POS_Y as int }),
            ],
            r@.buildings_pos == seq![Vec2V { x: BUILDING_POS_X as int, y: GROUND_POS_Y as int }],
            r@.attacked_human_list.len() == 0,
            r@.attacked_human_ids.len() == 0,
            r@.attacked_enemy_list.len() == 0,
            r@.attacked_enemy_ids.len() == 0,
            r.enemy_coming == Some(EnemyComing::Right),
    {
        let human = Human::new(0);
        let mut humans_pos_list = PositionMap::new();
        humans_pos_list.insert(human.get_id(), human.get_position());
        let mut humans: Vec<Human> = Vec::new();
        humans.push(human);

        let enemy = Enemy::new(0);
        let mut enemies_pos_list = PositionMap::new();
        enemies_pos_list.insert(enemy.get_id(), enemy.get_position());
        let mut enemies: Vec<Enemy> = Vec::new();
        enemies.push(enemy);

        let building = Building::new(BuildingType::Base);
        let mut buildings_pos_list: Vec<Vec2> = Vec::new();
        buildings_pos_list.push(building.get_position());
        let mut buildings: Vec<Building> = Vec::new();
        buildings.push(building);

        let mut base_ground: Vec<BaseGround> = Vec::new();
        base_ground.push(BaseGround::new());

        let r = Game {
            humans,
            humans_pos_list,
            enemies,
            buildings,
            buildings_pos_list,
            base_ground,
            enemies_pos_list,
            is_paused: false,
            is_game_over: false,
            attacked_human_list: Vec::new(),
            attacked_human_ids: IdSet::new(),
            attacked_enemy_list: Vec::new(),
            attacked_enemy_ids: IdSet::new(),
            enemy_coming: Some(EnemyComing::Right),
        };
        proof {
            assert(r@.humans =~= seq![human@]);
            assert(r@.enemies =~= seq![enemy@]);
            assert(r@.buildings =~= seq![building@]);
            assert(r@.buildings_pos =~= seq![building.position@]);
            assert(r@.humans_pos =~= seq![
                (0u32, Vec2V { x: HUMAN_SPAWN_X as int, y: GROUND_POS_Y as int }),
            ]);
            assert(r@.enemies_pos =~= seq![
                (0u32, Vec2V { x: ENEMY_SPAWN_X as int, y: GROUND_POS_Y as int }),
            ]);
            assert(r@.attacked_human_list =~= Seq::<AttackInfoV>::empty());
            assert(r@.attacked_enemy_list =~= Seq::<AttackInfoV>::empty());
            assert forall|id: u32|
                #[trigger] pm_contains(r@.humans_pos, id) implies human_has_id(r@.humans, id) by {
                if pm_contains(r@.humans_pos, id) {
                    assert(id == 0u32);
                    assert(r@.humans[0].id == 0);
                }
            }
            assert forall|id: u32|
                #[trigger] pm_contains(r@.enemies_pos, id) implies enemy_has_id(r@.enemies, id) by {
                if pm_contains(r@.enemies_pos, id) {
                    assert(id == 0u32);
                    assert(r@.enemies[0].id == 0);
                }
            }
        }
        r
    }

    /// Flip the pause toggle; a paused game's tick changes nothing.
    pub fn toggle_pause(&mut self)
        ensures
            final(self)@ == (GameV { is_paused: !old(self).is_paused, ..old(self)@ }),
    {
        self.is_paused = !self.is_paused;
    }

    /// Whether the base building has fallen and the game has ended.
    pub fn game_over(&self) -> (r: bool)
        ensures
            r == self.is_game_over,
    {
        self.is_game_over
    }

    /// Evaluate the terminal condition: the base building at zero hit
    /// points ends the game, whatever the rosters look like.
    pub fn game_over_update(&mut self)
        requires
            old(self).buildings@.len() >= 1,
        ensures
            final(self)@ == game_over_phase(old(self)@),
            final(self).base_ground@ == old(self).base_ground@,
    {
        let base = self.buildings[0];
        if base.get_hp() <= 0 {
            self.is_game_over = true;
        }
    }

    /// Buildings absorb their queued damage; afterwards the player-side
    /// pending queue and id set are cleared unconditionally.
    fn building_pass(&mut self)
        requires
            old(self)@.wf(),
        ensures
            final(self)@ == building_phase(old(self)@),
            final(self)@.wf(),
            final(self).base_ground@ == old(self).base_ground@,
    {
        let ghost b0 = buildings_views(self.buildings@);
        let ghost e0 = ev_views(self.attacked_human_list@);
        let ghost i0 = self.attacked_human_ids@;
        let n = self.buildings.len();
        let mut i: usize = 0;
        proof {
            assert(b0.skip(0) =~= b0);
            assert(buildings_views(self.buildings@).take(0) =~= Seq::<BuildingV>::empty());
            assert(Seq::<BuildingV>::empty() + building_pass_rec(b0, e0, i0).0 =~= building_pass_rec(
                b0,
                e0,
                i0,
            ).0);
        }
        while i < n
            invariant
                0 <= i <= n,
                old(self)@.wf(),
                n == self.buildings@.len(),
                b0.len() == n,
                b0 == buildings_views(old(self).buildings@),
                e0 == ev_views(old(self).attacked_human_list@),
                i0 == old(self).attacked_human_ids@,
                self.humans@ == old(self).humans@,
                self.humans_pos_list@ == old(self).humans_pos_list@,
                self.enemies@ == old(self).enemies@,
                self.enemies_pos_list@ == old(self).enemies_pos_list@,
                self.buildings_pos_list@ == old(self).buildings_pos_list@,
                self.base_ground@ == old(self).base_ground@,
                self.is_paused == old(self).is_paused,
                self.is_game_over == old(self).is_game_over,
                self.attacked_enemy_list@ == old(self).attacked_enemy_list@,
                self.attacked_enemy_ids@ == old(self).attacked_enemy_ids@,
                self.enemy_coming == old(self).enemy_coming,
                forall|j: int|
                    i <= j < n ==> #[trigger] buildings_views(self.buildings@)[j] == b0[j],
                forall|j: int|
                    0 <= j < i ==> (#[trigger] buildings_views(self.buildings@)[j]).wf(),
                evs_wf(ev_views(self.attacked_human_list@)),
                self.attacked_human_ids.wf(),
                ({
                    let r = building_pass_rec(b0, e0, i0);
                    let c = building_pass_rec(
                        b0.skip(i as int),
                        ev_views(self.attacked_human_list@),
                        self.attacked_human_ids@,
                    );
                    r.0 == buildings_views(self.buildings@).take(i as int) + c.0 && r.1 == c.1
                        && r.2 == c.2
                }),
            decreases n - i,
        {
            let b = self.buildings[i];
            let ghost evs_pre = ev_views(self.attacked_human_list@);
            let ghost ids_pre = self.attacked_human_ids@;
            let ghost pre_buildings = self.buildings@;
            proof {
                assert(b0.skip(i as int)[0] == b0[i as int]);
                assert(b0.skip(i as int).skip(1) =~= b0.skip(i as int + 1));
                assert(buildings_views(self.buildings@)[i as int] == self.buildings@[i as int]@);
                assert(b@ == b0[i as int]);
                assert(b0[i as int].wf());
            }
            let hit = self.attacked_human_ids.contains(b.id);
            if hit {
                let dmgs = crate::events::extract_damage(&mut self.attacked_human_list, b.id);
                self.attacked_human_ids.remove(b.id);
                let mut b2 = b;
                proof {
                    lemma_matching_dmgs_wf(evs_pre, b.id);
                    lemma_drop_matching_wf(evs_pre, b.id);
                    assert forall|k: int| 0 <= k < dmgs@.len() implies 0 <= #[trigger] dmgs@[k]
                        <= DAMAGE_LIMIT by {
                        assert(dmg_views(dmgs@)[k] == dmgs@[k] as int);
                        assert(dmg_views(dmgs@)[k] == matching_dmgs(evs_pre, b.id)[k]);
                    }
                }
                b2.apply_damage_list(&dmgs);
                self.buildings.set(i, b2);
                proof {
                    assert(buildings_views(self.buildings@)[i as int] == b2@);
                    assert(b2@.wf());
                    let r = building_pass_rec(b0, e0, i0);
                    let c_pre = building_pass_rec(b0.skip(i as int), evs_pre, ids_pre);
                    let rest = building_pass_rec(
                        b0.skip(i as int + 1),
                        drop_matching(evs_pre, b.id),
                        spec_remove_id(ids_pre, b.id),
                    );
                    assert(c_pre.0 == seq![b2@] + rest.0 && c_pre.1 == rest.1 && c_pre.2 == rest.2);
                    assert(buildings_views(self.buildings@).take(i as int) =~= buildings_views(
                        pre_buildings,
                    ).take(i as int));
                    assert(buildings_views(self.buildings@).take(i as int + 1) =~= buildings_views(
                        self.buildings@,
                    ).take(i as int).push(b2@));
                    assert(buildings_views(self.buildings@).take(i as int) + (seq![b2@] + rest.0)
                        =~= buildings_views(self.buildings@).take(i as int + 1) + rest.0);
                    assert forall|j: int|
                        i + 1 <= j < n implies #[trigger] buildings_views(self.buildings@)[j]
                        == b0[j] by {
                        assert(buildings_views(self.buildings@)[j] == buildings_views(
                            pre_buildings,
                        )[j]);
                    }
                    assert forall|j: int|
                        0 <= j < i + 1 implies (#[trigger] buildings_views(
                        self.buildings@,
                    )[j]).wf() by {
                        if j < i as int {
                            assert(buildings_views(self.buildings@)[j] == buildings_views(
                                pre_buildings,
                            )[j]);
                        } else {
                            assert(buildings_views(self.buildings@)[j] == b2@);
                        }
                    }
                }
            } else {
                proof {
                    assert(buildings_views(self.buildings@)[i as int] == b0[i as int]);
                    let c_pre = building_pass_rec(b0.skip(i as int), evs_pre, ids_pre);
                    let rest = building_pass_rec(b0.skip(i as int + 1), evs_pre, ids_pre);
                    assert(c_pre.0 == seq![b0[i as int]] + rest.0 && c_pre.1 == rest.1 && c_pre.2
                        == rest.2);
                    assert(buildings_views(self.buildings@).take(i as int + 1) =~= buildings_views(
                        self.buildings@,
                    ).take(i as int).push(b0[i as int]));
                    assert(buildings_views(self.buildings@).take(i as int) + (seq![b0[i as int]]
                        + rest.0) =~= buildings_views(self.buildings@).take(i as int + 1) + rest.0);
                }
            }
            i = i + 1;
        }
        proof {
            let r = building_pass_rec(b0, e0, i0);
            assert(b0.skip(n as int) =~= Seq::<BuildingV>::empty());
            assert(buildings_views(self.buildings@).take(n as int) =~= buildings_views(
                self.buildings@,
            ));
            assert(buildings_views(self.buildings@) + building_pass_rec(
                b0.skip(n as int),
                ev_views(self.attacked_human_list@),
                self.attacked_human_ids@,
            ).0 =~= buildings_views(self.buildings@));
        }
        self.attacked_human_list = Vec::new();
        self.attacked_human_ids.clear();
        proof {
            assert(ev_views(self.attacked_human_list@) =~= Seq::<AttackInfoV>::empty());
            assert(final(self)@ =~= building_phase(old(self)@));
        }
    }

    /// Sweep the enemy roster: clear the dead, apply queued damage, run
    /// each live enemy's behaviour update, and collect its outgoing
    /// attack against the player side.  Afterwards the roster's own
    /// pending queue and id set are cleared unconditionally, entries
    /// never consumed included.  Returns the ids marked dead.
    fn enemy_sweep(&mut self, dt_ms: i64) -> (dead: Vec<u32>)
        requires
            old(self)@.wf(),
            0 <= dt_ms <= MAX_TICK_MS,
        ensures
            final(self)@ == apply_enemy_sweep(
                old(self)@,
                enemy_sweep_result(old(self)@, dt_ms as int),
            ),
            dead@ == enemy_sweep_result(old(self)@, dt_ms as int).dead,
            final(self)@.wf(),
            final(self).base_ground@ == old(self).base_ground@,
    {
        let ghost g0 = self@;
        let ghost all = enemies_views(self.enemies@);
        let ghost st0 = enemy_sweep_start(g0);
        let ghost dti = dt_ms as int;
        let mut processed: Vec<Enemy> = Vec::new();
        let mut dead: Vec<u32> = Vec::new();
        let mut k: usize = 0;
        let n = self.enemies.len();
        proof {
            assert(all.skip(0) =~= all);
            assert(enemies_views(processed@) =~= Seq::<EnemyV>::empty());
        }
        while k < n
            invariant
                0 <= k <= n,
                old(self)@.wf(),
                g0 == old(self)@,
                all == enemies_views(old(self).enemies@),
                st0 == enemy_sweep_start(g0),
                dti == dt_ms as int,
                0 <= dt_ms <= MAX_TICK_MS,
                n == all.len(),
                self.enemies@.len() == n - k,
                enemies_views(self.enemies@) == all.skip(k as int),
                processed@.len() == k,
                self.humans@ == old(self).humans@,
                self.humans_pos_list@ == old(self).humans_pos_list@,
                self.buildings@ == old(self).buildings@,
                self.buildings_pos_list@ == old(self).buildings_pos_list@,
                self.base_ground@ == old(self).base_ground@,
                self.is_paused == old(self).is_paused,
                self.is_game_over == old(self).is_game_over,
                self.enemy_coming == old(self).enemy_coming,
                forall|j: int| 0 <= j < k ==> (#[trigger] enemies_views(processed@)[j]).wf(),
                forall|j: int|
                    0 <= j < k ==> (#[trigger] enemies_views(processed@)[j]).id == all[j].id,
                evs_wf(ev_views(self.attacked_enemy_list@)),
                evs_wf(ev_views(self.attacked_human_list@)),
                self.attacked_enemy_ids.wf(),
                self.attacked_human_ids.wf(),
                ids_covered(self.attacked_human_ids@, ev_views(self.attacked_human_list@)),
                self.enemies_pos_list.wf(),
                pm_bounded(self.enemies_pos_list@),
                self.enemies_pos_list@.len() == g0.enemies_pos.len(),
                forall|x: u32|
                    #[trigger] pm_contains(self.enemies_pos_list@, x) == pm_contains(
                        g0.enemies_pos,
                        x,
                    ),
                enemy_sweep_rec(st0, all, dti, g0.humans_pos, g0.buildings_pos)
                    == enemy_sweep_rec(
                    EnemySweep {
                        enemies: enemies_views(processed@),
                        dead: dead@,
                        in_evs: ev_views(self.attacked_enemy_list@),
                        in_ids: self.attacked_enemy_ids@,
                        out_evs: ev_views(self.attacked_human_list@),
                        out_ids: self.attacked_human_ids@,
                        pos: self.enemies_pos_list@,
                    },
                    all.skip(k as int),
                    dti,
                    g0.humans_pos,
                    g0.buildings_pos,
                ),
            decreases n - k,
        {
            let ghost st_cur = EnemySweep {
                enemies: enemies_views(processed@),
                dead: dead@,
                in_evs: ev_views(self.attacked_enemy_list@),
                in_ids: self.attacked_enemy_ids@,
                out_evs: ev_views(self.attacked_human_list@),
                out_ids: self.attacked_human_ids@,
                pos: self.enemies_pos_list@,
            };
            let ghost pre_processed = processed@;
            let ghost pre_enemies = self.enemies@;
            let mut e = self.enemies.remove(0);
            let ghost e0v = all[k as int];
            proof {
                assert(all.skip(k as int)[0] == all[k as int]);
                assert(all.skip(k as int).skip(1) =~= all.skip(k as int + 1));
                assert(e@ == enemies_views(pre_enemies)[0]);
                assert(e@ == e0v);
                assert(e@.wf());
                assert(enemies_views(self.enemies@) =~= all.skip(k as int + 1));
            }
            if e.get_hp() <= 0 {
                dead.push(e.get_id());
                processed.push(e);
                proof {
                    assert(enemies_views(processed@) =~= enemies_views(pre_processed).push(e@));
                    let st1 = EnemySweep {
                        enemies: st_cur.enemies.push(e0v),
                        dead: st_cur.dead.push(e0v.id),
                        ..st_cur
                    };
                    let st_next = EnemySweep {
                        enemies: enemies_views(processed@),
                        dead: dead@,
                        in_evs: ev_views(self.attacked_enemy_list@),
                        in_ids: self.attacked_enemy_ids@,
                        out_evs: ev_views(self.attacked_human_list@),
                        out_ids: self.attacked_human_ids@,
                        pos: self.enemies_pos_list@,
                    };
                    assert(st_next =~= st1);
                    assert(enemy_sweep_rec(st_cur, all.skip(k as int), dti, g0.humans_pos, g0.buildings_pos)
                        == enemy_sweep_rec(st1, all.skip(k as int + 1), dti, g0.humans_pos, g0.buildings_pos));
                }
            } else {
                let ghost evs_pre = ev_views(self.attacked_enemy_list@);
                let ghost ids_pre = self.attacked_enemy_ids@;
                let hit = self.attacked_enemy_ids.contains(e.get_id());
                if hit {
                    let dmgs = crate::events::extract_damage(
                        &mut self.attacked_enemy_list,
                        e.get_id(),
                    );
                    self.attacked_enemy_ids.remove(e.get_id());
                    proof {
                        lemma_matching_dmgs_wf(evs_pre, e.id);
                        lemma_drop_matching_wf(evs_pre, e.id);
                        assert forall|j: int| 0 <= j < dmgs@.len() implies 0 <= #[trigger] dmgs@[j]
                            <= DAMAGE_LIMIT by {
                            assert(dmg_views(dmgs@)[j] == dmgs@[j] as int);
                            assert(dmg_views(dmgs@)[j] == matching_dmgs(evs_pre, e.id)[j]);
                        }
                    }
                    e.apply_damage_list(&dmgs);
                }
                let ghost hp1x: int = if id_contains(st_cur.in_ids, e0v.id) {
                    apply_damage_seq(e0v.hp, matching_dmgs(st_cur.in_evs, e0v.id), HUMANS_MAX_HP as int)
                } else {
                    e0v.hp
                };
                proof {
                    assert(e@ =~= (EnemyV { hp: hp1x, ..e0v }));
                }
                let bp = clone_positions(&self.buildings_pos_list);
                e.update_building_pos_list(bp);
                let ghost e1x = EnemyV { hp: hp1x, building_pos: g0.buildings_pos, ..e0v };
                proof {
                    assert(vec2_views(self.buildings_pos_list@) == g0.buildings_pos);
                    assert(e@ =~= e1x);
                    assert(e@.wf());
                }
                e.update(
                    dt_ms,
                    &mut self.enemies_pos_list,
                    Some(EnemyComing::Left),
                    &self.humans_pos_list,
                );
                let ghost e2x = enemy_update_spec(e1x, dti, Some(EnemyComing::Left), g0.humans_pos);
                proof {
                    assert(e@ == e2x);
                    assert(e2x.id == e0v.id);
                }
                let out = e.get_attack_target();
                if let Some((tid, dmg)) = out {
                    self.attacked_human_ids.insert(tid);
                    self.attacked_human_list.push(AttackInfo { attacked_id: tid, dmg_taken: dmg });
                    proof {
                        assert(enemy_attack_output(e2x) == Some((tid, dmg as int)));
                        assert(0 <= dmg as int <= DAMAGE_LIMIT);
                        assert(ev_views(self.attacked_human_list@) =~= st_cur.out_evs.push(
                            AttackInfoV { attacked_id: tid, dmg: dmg as int },
                        ));
                        lemma_covered_after_queue(
                            st_cur.out_ids,
                            st_cur.out_evs,
                            AttackInfoV { attacked_id: tid, dmg: dmg as int },
                        );
                        assert forall|j: int|
                            0 <= j < ev_views(self.attacked_human_list@).len() implies 0 <= (
                        #[trigger] ev_views(self.attacked_human_list@)[j]).dmg <= DAMAGE_LIMIT by {
                            if j < st_cur.out_evs.len() {
                                assert(ev_views(self.attacked_human_list@)[j] == st_cur.out_evs[j]);
                            }
                        }
                    }
                } else {
                    proof {
                        assert(enemy_attack_output(e2x) == None::<(u32, int)>);
                    }
                }
                processed.push(e);
                proof {
                    assert(enemies_views(processed@) =~= enemies_views(pre_processed).push(e@));
                    let st_next = EnemySweep {
                        enemies: enemies_views(processed@),
                        dead: dead@,
                        in_evs: ev_views(self.attacked_enemy_list@),
                        in_ids: self.attacked_enemy_ids@,
                        out_evs: ev_views(self.attacked_human_list@),
                        out_ids: self.attacked_human_ids@,
                        pos: self.enemies_pos_list@,
                    };
                    let oevsx = match enemy_attack_output(e2x) {
                        Some((tid2, dmg2)) => st_cur.out_evs.push(
                            AttackInfoV { attacked_id: tid2, dmg: dmg2 },
                        ),
                        None => st_cur.out_evs,
                    };
                    let oidsx = match enemy_attack_output(e2x) {
                        Some((tid2, _)) => spec_insert_id(st_cur.out_ids, tid2),
                        None => st_cur.out_ids,
                    };
                    let st1 = EnemySweep {
                        enemies: st_cur.enemies.push(e2x),
                        dead: st_cur.dead,
                        in_evs: if id_contains(st_cur.in_ids, e0v.id) {
                            drop_matching(st_cur.in_evs, e0v.id)
                        } else {
                            st_cur.in_evs
                        },
                        in_ids: if id_contains(st_cur.in_ids, e0v.id) {
                            spec_remove_id(st_cur.in_ids, e0v.id)
                        } else {
                            st_cur.in_ids
                        },
                        out_evs: oevsx,
                        out_ids: oidsx,
                        pos: spec_insert_pos(st_cur.pos, e2x.id, Vec2V { x: e2x.x, y: e2x.y }),
                    };
                    assert(st_next =~= st1);
                    assert(enemy_sweep_rec(st_cur, all.skip(k as int), dti, g0.humans_pos, g0.buildings_pos)
                        == enemy_sweep_rec(st1, all.skip(k as int + 1), dti, g0.humans_pos, g0.buildings_pos));
                }
            }
            k = k + 1;
        }
        proof {
            assert(all.skip(n as int) =~= Seq::<EnemyV>::empty());
        }
        self.enemies = processed;
        self.attacked_enemy_list = Vec::new();
        self.attacked_enemy_ids.clear();
        proof {
            let st = enemy_sweep_result(old(self)@, dti);
            assert(ev_views(self.attacked_enemy_list@) =~= Seq::<AttackInfoV>::empty());
            assert(final(self)@ =~= apply_enemy_sweep(old(self)@, st));
            assert forall|id: u32|
                #[trigger] pm_contains(final(self)@.enemies_pos, id) implies enemy_has_id(
                final(self)@.enemies,
                id,
            ) by {
                assert(pm_contains(g0.enemies_pos, id));
                assert(enemy_has_id(g0.enemies, id));
                let i = choose|i: int| 0 <= i < g0.enemies.len() && (#[trigger] g0.enemies[i]).id == id;
                assert(enemies_views(processed@)[i].id == all[i].id);
            }
        }
        dead
    }

    /// Sweep the human roster: clear the dead, apply the damage the
    /// enemies queued this tick, run each live human's behaviour update
    /// with its slot's uniform draw, and collect its outgoing attack
    /// against the enemy side.  Returns the ids marked dead.
    fn human_sweep(&mut self, dt_ms: i64, draws: &Vec<u64>) -> (dead: Vec<u32>)
        requires
            old(self)@.wf(),
            0 <= dt_ms <= MAX_TICK_MS,
            draws@.len() == old(self).humans@.len(),
        ensures
            final(self)@ == apply_human_sweep(
                old(self)@,
                human_sweep_result(old(self)@, dt_ms as int, draws@),
            ),
            dead@ == human_sweep_result(old(self)@, dt_ms as int, draws@).dead,
            final(self)@.wf(),
            final(self).base_ground@ == old(self).base_ground@,
    {
        let ghost g0 = self@;
        let ghost all = humans_views(self.humans@);
        let ghost st0 = human_sweep_start(g0, draws@);
        let ghost dti = dt_ms as int;
        let ghost rc = g0.enemy_coming;
        let mut processed: Vec<Human> = Vec::new();
        let mut dead: Vec<u32> = Vec::new();
        let mut k: usize = 0;
        let n = self.humans.len();
        proof {
            assert(all.skip(0) =~= all);
            assert(draws@.skip(0) =~= draws@);
            assert(humans_views(processed@) =~= Seq::<HumanV>::empty());
        }
        while k < n
            invariant
                0 <= k <= n,
                old(self)@.wf(),
                g0 == old(self)@,
                all == humans_views(old(self).humans@),
                st0 == human_sweep_start(g0, draws@),
                dti == dt_ms as int,
                rc == g0.enemy_coming,
                0 <= dt_ms <= MAX_TICK_MS,
                n == all.len(),
                draws@.len() == n,
                self.humans@.len() == n - k,
                humans_views(self.humans@) == all.skip(k as int),
                processed@.len() == k,
                self.enemies@ == old(self).enemies@,
                self.enemies_pos_list@ == old(self).enemies_pos_list@,
                self.buildings@ == old(self).buildings@,
                self.buildings_pos_list@ == old(self).buildings_pos_list@,
                self.base_ground@ == old(self).base_ground@,
                self.is_paused == old(self).is_paused,
                self.is_game_over == old(self).is_game_over,
                self.enemy_coming == old(self).enemy_coming,
                forall|j: int| 0 <= j < k ==> (#[trigger] humans_views(processed@)[j]).wf(),
                forall|j: int|
                    0 <= j < k ==> (#[trigger] humans_views(processed@)[j]).id == all[j].id,
                evs_wf(ev_views(self.attacked_human_list@)),
                evs_wf(ev_views(self.attacked_enemy_list@)),
                self.attacked_human_ids.wf(),
                self.attacked_enemy_ids.wf(),
                ids_covered(self.attacked_human_ids@, ev_views(self.attacked_human_list@)),
                ids_covered(self.attacked_enemy_ids@, ev_views(self.attacked_enemy_list@)),
                self.humans_pos_list.wf(),
                pm_bounded(self.humans_pos_list@),
                self.humans_pos_list@.len() == g0.humans_pos.len(),
                forall|x: u32|
                    #[trigger] pm_contains(self.humans_pos_list@, x) == pm_contains(
                        g0.humans_pos,
                        x,
                    ),
                human_sweep_rec(st0, all, dti, rc, g0.enemies_pos) == human_sweep_rec(
                    HumanSweep {
                        humans: humans_views(processed@),
                        dead: dead@,
                        in_evs: ev_views(self.attacked_human_list@),
                        in_ids: self.attacked_human_ids@,
                        out_evs: ev_views(self.attacked_enemy_list@),
                        out_ids: self.attacked_enemy_ids@,
                        pos: self.humans_pos_list@,
                        draws: draws@.skip(k as int),
                    },
                    all.skip(k as int),
                    dti,
                    rc,
                    g0.enemies_pos,
                ),
            decreases n - k,
        {
            let ghost st_cur = HumanSweep {
                humans: humans_views(processed@),
                dead: dead@,
                in_evs: ev_views(self.attacked_human_list@),
                in_ids: self.attacked_human_ids@,
                out_evs: ev_views(self.attacked_enemy_list@),
                out_ids: self.attacked_enemy_ids@,
                pos: self.humans_pos_list@,
                draws: draws@.skip(k as int),
            };
            let ghost pre_processed = processed@;
            let ghost pre_humans = self.humans@;
            let mut h = self.humans.remove(0);
            let ghost h0v = all[k as int];
            proof {
                assert(all.skip(k as int)[0] == all[k as int]);
                assert(all.skip(k as int).skip(1) =~= all.skip(k as int + 1));
                assert(draws@.skip(k as int)[0] == draws@[k as int]);
                assert(draws@.skip(k as int).skip(1) =~= draws@.skip(k as int + 1));
                assert(h@ == humans_views(pre_humans)[0]);
                assert(h@ == h0v);
                assert(h@.wf());
                assert(humans_views(self.humans@) =~= all.skip(k as int + 1));
            }
            if h.get_hp() <= 0 {
                dead.push(h.get_id());
                processed.push(h);
                proof {
                    assert(humans_views(processed@) =~= humans_views(pre_processed).push(h@));
                    let st1 = HumanSweep {
                        humans: st_cur.humans.push(h0v),
                        dead: st_cur.dead.push(h0v.id),
                        draws: st_cur.draws.skip(1),
                        ..st_cur
                    };
                    let st_next = HumanSweep {
                        humans: humans_views(processed@),
                        dead: dead@,
                        in_evs: ev_views(self.attacked_human_list@),
                        in_ids: self.attacked_human_ids@,
                        out_evs: ev_views(self.attacked_enemy_list@),
                        out_ids: self.attacked_enemy_ids@,
                        pos: self.humans_pos_list@,
                        draws: draws@.skip(k as int + 1),
                    };
                    assert(st_next =~= st1);
                    assert(human_sweep_rec(st_cur, all.skip(k as int), dti, rc, g0.enemies_pos)
                        == human_sweep_rec(st1, all.skip(k as int + 1), dti, rc, g0.enemies_pos));
                }
            } else {
                let ghost evs_pre = ev_views(self.attacked_human_list@);
                let ghost ids_pre = self.attacked_human_ids@;
                let hit = self.attacked_human_ids.contains(h.get_id());
                if hit {
                    let dmgs = crate::events::extract_damage(
                        &mut self.attacked_human_list,
                        h.get_id(),
                    );
                    self.attacked_human_ids.remove(h.get_id());
                    proof {
                        lemma_matching_dmgs_wf(evs_pre, h.id);
                        lemma_drop_matching_wf(evs_pre, h.id);
                        lemma_covered_after_consume(ids_pre, evs_pre, h.id);
                        assert forall|j: int| 0 <= j < dmgs@.len() implies 0 <= #[trigger] dmgs@[j]
                            <= DAMAGE_LIMIT by {
                            assert(dmg_views(dmgs@)[j] == dmgs@[j] as int);
                            assert(dmg_views(dmgs@)[j] == matching_dmgs(evs_pre, h.id)[j]);
                        }
                    }
                    h.apply_damage_list(&dmgs);
                }
                let ghost hp1x: int = if id_contains(st_cur.in_ids, h0v.id) {
                    apply_damage_seq(h0v.hp, matching_dmgs(st_cur.in_evs, h0v.id), HUMANS_MAX_HP as int)
                } else {
                    h0v.hp
                };
                let ghost h1x = HumanV { hp: hp1x, ..h0v };
                proof {
                    assert(h@ =~= h1x);
                    assert(h@.wf());
                }
                let rival_coming = self.enemy_coming;
                h.update(
                    dt_ms,
                    &mut self.humans_pos_list,
                    rival_coming,
                    &self.enemies_pos_list,
                    draws[k],
                );
                let ghost h2x = human_update_spec(h1x, dti, rc, g0.enemies_pos, draws@[k as int]);
                proof {
                    assert(h@ == h2x);
                    assert(h2x.id == h0v.id);
                }
                let out = h.get_attack_target();
                if let Some((tid, dmg)) = out {
                    self.attacked_enemy_ids.insert(tid);
                    self.attacked_enemy_list.push(AttackInfo { attacked_id: tid, dmg_taken: dmg });
                    proof {
                        assert(human_attack_output(h2x) == Some((tid, dmg as int)));
                        assert(0 <= dmg as int <= DAMAGE_LIMIT);
                        assert(ev_views(self.attacked_enemy_list@) =~= st_cur.out_evs.push(
                            AttackInfoV { attacked_id: tid, dmg: dmg as int },
                        ));
                        lemma_covered_after_queue(
                            st_cur.out_ids,
                            st_cur.out_evs,
                            AttackInfoV { attacked_id: tid, dmg: dmg as int },
                        );
                        assert forall|j: int|
                            0 <= j < ev_views(self.attacked_enemy_list@).len() implies 0 <= (
                        #[trigger] ev_views(self.attacked_enemy_list@)[j]).dmg <= DAMAGE_LIMIT by {
                            if j < st_cur.out_evs.len() {
                                assert(ev_views(self.attacked_enemy_list@)[j] == st_cur.out_evs[j]);
                            }
                        }
                    }
                } else {
                    proof {
                        assert(human_attack_output(h2x) == None::<(u32, int)>);
                    }
                }
                processed.push(h);
                proof {
                    assert(humans_views(processed@) =~= humans_views(pre_processed).push(h@));
                    let st_next = HumanSweep {
                        humans: humans_views(processed@),
                        dead: dead@,
                        in_evs: ev_views(self.attacked_human_list@),
                        in_ids: self.attacked_human_ids@,
                        out_evs: ev_views(self.attacked_enemy_list@),
                        out_ids: self.attacked_enemy_ids@,
                        pos: self.humans_pos_list@,
                        draws: draws@.skip(k as int + 1),
                    };
                    let oevsx = match human_attack_output(h2x) {
                        Some((tid2, dmg2)) => st_cur.out_evs.push(
                            AttackInfoV { attacked_id: tid2, dmg: dmg2 },
                        ),
                        None => st_cur.out_evs,
                    };
                    let oidsx = match human_attack_output(h2x) {
                        Some((tid2, _)) => spec_insert_id(st_cur.out_ids, tid2),
                        None => st_cur.out_ids,
                    };
                    let st1 = HumanSweep {
                        humans: st_cur.humans.push(h2x),
                        dead: st_cur.dead,
                        in_evs: if id_contains(st_cur.in_ids, h0v.id) {
                            drop_matching(st_cur.in_evs, h0v.id)
                        } else {
                            st_cur.in_evs
                        },
                        in_ids: if id_contains(st_cur.in_ids, h0v.id) {
                            spec_remove_id(st_cur.in_ids, h0v.id)
                        } else {
                            st_cur.in_ids
                        },
                        out_evs: oevsx,
                        out_ids: oidsx,
                        pos: spec_insert_pos(st_cur.pos, h2x.id, Vec2V { x: h2x.x, y: h2x.y }),
                        draws: st_cur.draws.skip(1),
                    };
                    assert(st_next =~= st1);
                    assert(human_sweep_rec(st_cur, all.skip(k as int), dti, rc, g0.enemies_pos)
                        == human_sweep_rec(st1, all.skip(k as int + 1), dti, rc, g0.enemies_pos));
                }
            }
            k = k + 1;
        }
        proof {
            assert(all.skip(n as int) =~= Seq::<HumanV>::empty());
        }
        self.humans = processed;
        proof {
            let st = human_sweep_result(old(self)@, dti, draws@);
            assert(final(self)@ =~= apply_human_sweep(old(self)@, st));
            assert forall|id: u32|
                #[trigger] pm_contains(final(self)@.humans_pos, id) implies human_has_id(
                final(self)@.humans,
                id,
            ) by {
                assert(pm_contains(g0.humans_pos, id));
                assert(human_has_id(g0.humans, id));
                let i = choose|i: int| 0 <= i < g0.humans.len() && (#[trigger] g0.humans[i]).id == id;
                assert(humans_views(processed@)[i].id == all[i].id);
            }
        }
        dead
    }

    /// Destroy the dead humans: each id leaves the roster, the
    /// position index, and the player-side pending queue and id set.
    fn purge_humans(&mut self, dead: &Vec<u32>)
        requires
            old(self)@.wf(),
        ensures
            final(self)@ == purge_humans_phase(old(self)@, dead@),
            final(self)@.wf(),
            final(self).base_ground@ == old(self).base_ground@,
    {
        let ghost g0 = self@;
        let ghost d0 = dead@;
        let n = dead.len();
        let mut i: usize = 0;
        proof {
            assert(d0.skip(0) =~= d0);
            assert forall|x: u32|
                #[trigger] pm_contains(self.humans_pos_list@, x) <==> human_has_id(
                    humans_views(self.humans@),
                    x,
                ) by {
                if human_has_id(humans_views(self.humans@), x) {
                    let j = choose|j: int|
                        0 <= j < g0.humans.len() && (#[trigger] g0.humans[j]).id == x;
                    assert(pm_contains(g0.humans_pos, g0.humans[j].id));
                }
            }
        }
        while i < n
            invariant
                0 <= i <= n,
                n == d0.len(),
                d0 == dead@,
                g0 == old(self)@,
                old(self)@.wf(),
                self.enemies@ == old(self).enemies@,
                self.enemies_pos_list@ == old(self).enemies_pos_list@,
                self.buildings@ == old(self).buildings@,
                self.buildings_pos_list@ == old(self).buildings_pos_list@,
                self.base_ground@ == old(self).base_ground@,
                self.is_paused == old(self).is_paused,
                self.is_game_over == old(self).is_game_over,
                self.attacked_enemy_list@ == old(self).attacked_enemy_list@,
                self.attacked_enemy_ids@ == old(self).attacked_enemy_ids@,
                self.enemy_coming == old(self).enemy_coming,
                forall|a: int, b: int|
                    0 <= a < b < humans_views(self.humans@).len() ==> (#[trigger] humans_views(
                        self.humans@,
                    )[a]).id != (#[trigger] humans_views(self.humans@)[b]).id,
                forall|j: int|
                    0 <= j < humans_views(self.humans@).len() ==> (#[trigger] humans_views(
                        self.humans@,
                    )[j]).wf(),
                self.humans_pos_list.wf(),
                pm_bounded(self.humans_pos_list@),
                self.humans_pos_list@.len() == humans_views(self.humans@).len(),
                forall|x: u32|
                    #[trigger] pm_contains(self.humans_pos_list@, x) <==> human_has_id(
                        humans_views(self.humans@),
                        x,
                    ),
                evs_wf(ev_views(self.attacked_human_list@)),
                self.attacked_human_ids.wf(),
                ids_covered(self.attacked_human_ids@, ev_views(self.attacked_human_list@)),
                ({
                    let r = purge_humans_rec(
                        g0.humans,
                        g0.humans_pos,
                        g0.attacked_human_list,
                        g0.attacked_human_ids,
                        d0,
                    );
                    let c = purge_humans_rec(
                        humans_views(self.humans@),
                        self.humans_pos_list@,
                        ev_views(self.attacked_human_list@),
                        self.attacked_human_ids@,
                        d0.skip(i as int),
                    );
                    r.0 == c.0 && r.1 == c.1 && r.2 == c.2 && r.3 == c.3
                }),
            decreases n - i,
        {
            let id = dead[i];
            let ghost hs_pre = humans_views(self.humans@);
            let ghost pos_pre = self.humans_pos_list@;
            proof {
                assert(d0.skip(i as int)[0] == d0[i as int]);
                assert(d0.skip(i as int).skip(1) =~= d0.skip(i as int + 1));
                lemma_remove_human_props(hs_pre, id);
                lemma_drop_matching_wf(ev_views(self.attacked_human_list@), id);
                lemma_covered_after_consume(
                    self.attacked_human_ids@,
                    ev_views(self.attacked_human_list@),
                    id,
                );
            }
            remove_human_entity(&mut self.humans, id);
            self.humans_pos_list.remove(id);
            let _consumed = crate::events::extract_damage(&mut self.attacked_human_list, id);
            self.attacked_human_ids.remove(id);
            proof {
                assert forall|x: u32|
                    #[trigger] pm_contains(self.humans_pos_list@, x) <==> human_has_id(
                        humans_views(self.humans@),
                        x,
                    ) by {
                    assert(pm_contains(self.humans_pos_list@, x) <==> (x != id && pm_contains(
                        pos_pre,
                        x,
                    )));
                    assert(human_has_id(humans_views(self.humans@), x) <==> (x != id
                        && human_has_id(hs_pre, x)));
                }
                if pm_contains(pos_pre, id) {
                    assert(human_has_id(hs_pre, id));
                } else {
                    assert(!human_has_id(hs_pre, id));
                }
            }
            i = i + 1;
        }
        proof {
            assert(d0.skip(n as int) =~= Seq::<u32>::empty());
            assert(final(self)@ =~= purge_humans_phase(old(self)@, dead@));
            assert forall|j: int|
                0 <= j < final(self)@.humans.len() implies pm_contains(
                final(self)@.humans_pos,
                (#[trigger] final(self)@.humans[j]).id,
            ) by {
                assert(human_has_id(final(self)@.humans, final(self)@.humans[j].id));
            }
        }
    }

    /// Destroy the dead enemies, symmetrically.
    fn purge_enemies(&mut self, dead: &Vec<u32>)
        requires
            old(self)@.wf(),
        ensures
            final(self)@ == purge_enemies_phase(old(self)@, dead@),
            final(self)@.wf(),
            final(self).base_ground@ == old(self).base_ground@,
    {
        let ghost g0 = self@;
        let ghost d0 = dead@;
        let n = dead.len();
        let mut i: usize = 0;
        proof {
            assert(d0.skip(0) =~= d0);
            assert forall|x: u32|
                #[trigger] pm_contains(self.enemies_pos_list@, x) <==> enemy_has_id(
                    enemies_views(self.enemies@),
                    x,
                ) by {
                if enemy_has_id(enemies_views(self.enemies@), x) {
                    let j = choose|j: int|
                        0 <= j < g0.enemies.len() && (#[trigger] g0.enemies[j]).id == x;
                    assert(pm_contains(g0.enemies_pos, g0.enemies[j].id));
                }
            }
        }
        while i < n
            invariant
                0 <= i <= n,
                n == d0.len(),
                d0 == dead@,
                g0 == old(self)@,
                old(self)@.wf(),
                self.humans@ == old(self).humans@,
                self.humans_pos_list@ == old(self).humans_pos_list@,
                self.buildings@ == old(self).buildings@,
                self.buildings_pos_list@ == old(self).buildings_pos_list@,
                self.base_ground@ == old(self).base_ground@,
                self.is_paused == old(self).is_paused,
                self.is_game_over == old(self).is_game_over,
                self.attacked_human_list@ == old(self).attacked_human_list@,
                self.attacked_human_ids@ == old(self).attacked_human_ids@,
                self.enemy_coming == old(self).enemy_coming,
                forall|a: int, b: int|
                    0 <= a < b < enemies_views(self.enemies@).len() ==> (#[trigger] enemies_views(
                        self.enemies@,
                    )[a]).id != (#[trigger] enemies_views(self.enemies@)[b]).id,
                forall|j: int|
                    0 <= j < enemies_views(self.enemies@).len() ==> (#[trigger] enemies_views(
                        self.enemies@,
                    )[j]).wf(),
                self.enemies_pos_list.wf(),
                pm_bounded(self.enemies_pos_list@),
                self.enemies_pos_list@.len() == enemies_views(self.enemies@).len(),
                forall|x: u32|
                    #[trigger] pm_contains(self.enemies_pos_list@, x) <==> enemy_has_id(
                        enemies_views(self.enemies@),
                        x,
                    ),
                evs_wf(ev_views(self.attacked_enemy_list@)),
                self.attacked_enemy_ids.wf(),
                ids_covered(self.attacked_enemy_ids@, ev_views(self.attacked_enemy_list@)),
                ({
                    let r = purge_enemies_rec(
                        g0.enemies,
                        g0.enemies_pos,
                        g0.attacked_enemy_list,
                        g0.attacked_enemy_ids,
                        d0,
                    );
                    let c = purge_enemies_rec(
                        enemies_views(self.enemies@),
                        self.enemies_pos_list@,
                        ev_views(self.attacked_enemy_list@),
                        self.attacked_enemy_ids@,
                        d0.skip(i as int),
                    );
                    r.0 == c.0 && r.1 == c.1 && r.2 == c.2 && r.3 == c.3
                }),
            decreases n - i,
        {
            let id = dead[i];
            let ghost es_pre = enemies_views(self.enemies@);
            let ghost pos_pre = self.enemies_pos_list@;
            proof {
                assert(d0.skip(i as int)[0] == d0[i as int]);
                assert(d0.skip(i as int).skip(1) =~= d0.skip(i as int + 1));
                lemma_remove_enemy_props(es_pre, id);
                lemma_drop_matching_wf(ev_views(self.attacked_enemy_list@), id);
                lemma_covered_after_consume(
                    self.attacked_enemy_ids@,
                    ev_views(self.attacked_enemy_list@),
                    id,
                );
            }
            remove_enemy_entity(&mut self.enemies, id);
            self.enemies_pos_list.remove(id);
            let _consumed = crate::events::extract_damage(&mut self.attacked_enemy_list, id);
            self.attacked_enemy_ids.remove(id);
            proof {
                assert forall|x: u32|
                    #[trigger] pm_contains(self.enemies_pos_list@, x) <==> enemy_has_id(
                        enemies_views(self.enemies@),
                        x,
                    ) by {
                    assert(pm_contains(self.enemies_pos_list@, x) <==> (x != id && pm_contains(
                        pos_pre,
                        x,
                    )));
                    assert(enemy_has_id(enemies_views(self.enemies@), x) <==> (x != id
                        && enemy_has_id(es_pre, x)));
                }
                if pm_contains(pos_pre, id) {
                    assert(enemy_has_id(es_pre, id));
                } else {
                    assert(!enemy_has_id(es_pre, id));
                }
            }
            i = i + 1;
        }
        proof {
            assert(d0.skip(n as int) =~= Seq::<u32>::empty());
            assert(final(self)@ =~= purge_enemies_phase(old(self)@, dead@));
            assert forall|j: int|
                0 <= j < final(self)@.enemies.len() implies pm_contains(
                final(self)@.enemies_pos,
                (#[trigger] final(self)@.enemies[j]).id,
            ) by {
                assert(enemy_has_id(final(self)@.enemies, final(self)@.enemies[j].id));
            }
        }
    }

    /// One simulation tick with the uniform draws given from outside,
    /// one per human roster slot: the whole step is then a function of
    /// the starting state, the delta-time, and the draws.
    pub fn tick_with_draws(&mut self, dt_ms: i64, draws: &Vec<u64>)
        requires
            old(self)@.wf(),
            0 <= dt_ms <= MAX_TICK_MS,
            draws@.len() == old(self).humans@.len(),
        ensures
            final(self)@ == tick_spec(old(self)@, dt_ms as int, draws@),
            final(self)@.wf(),
            final(self).base_ground@ == old(self).base_ground@,
            old(self).is_paused || old(self).is_game_over ==> final(self)@ == old(self)@,
            !old(self).is_paused && !old(self).is_game_over ==> (final(self).is_game_over <==> (
            old(self).is_game_over || final(self)@.buildings[0].hp <= 0)),
    {
        if self.is_paused || self.is_game_over {
            return ;
        }
        self.building_pass();
        let dead_e = self.enemy_sweep(dt_ms);
        let dead_h = self.human_sweep(dt_ms, draws);
        self.purge_humans(&dead_h);
        self.purge_enemies(&dead_e);
        self.game_over_update();
        proof {
            assert(final(self)@ =~= tick_spec(old(self)@, dt_ms as int, draws@));
        }
    }

    /// One simulation tick: the idle-walk directions are drawn from
    /// the thread's random generator, one draw per human roster slot;
    /// everything else is the deterministic `tick_spec` step.
    pub fn tick(&mut self, dt_ms: i64)
        requires
            old(self)@.wf(),
            0 <= dt_ms <= MAX_TICK_MS,
        ensures
            exists|draws: Seq<u64>|
                {
                    &&& #[trigger] tick_spec(old(self)@, dt_ms as int, draws) == final(self)@
                    &&& draws.len() == old(self).humans@.len()
                    &&& forall|j: int| 0 <= j < draws.len() ==> draws[j] < DRAW_BOUND
                },
            final(self)@.wf(),
            final(self).base_ground@ == old(self).base_ground@,
            old(self).is_paused || old(self).is_game_over ==> final(self)@ == old(self)@,
            !old(self).is_paused && !old(self).is_game_over ==> (final(self).is_game_over <==> (
            old(self).is_game_over || final(self)@.buildings[0].hp <= 0)),
    {
        let mut draws: Vec<u64> = Vec::new();
        let n = self.humans.len();
        let mut i: usize = 0;
        while i < n
            invariant
                0 <= i <= n,
                draws@.len() == i,
                forall|j: int| 0 <= j < i ==> draws@[j] < DRAW_BOUND,
            decreases n - i,
        {
            draws.push(crate::rng::random_draw());
            i = i + 1;
        }
        self.tick_with_draws(dt_ms, &draws);
        proof {
            assert(tick_spec(old(self)@, dt_ms as int, draws@) == final(self)@);
        }
    }
}

/// Taking one id's human out keeps ids unique and removes exactly
/// that id from the roster.
proof fn lemma_remove_human_props(hs: Seq<HumanV>, id: u32)
    requires
        forall|a: int, b: int|
            0 <= a < b < hs.len() ==> (#[trigger] hs[a]).id != (#[trigger] hs[b]).id,
    ensures
        forall|a: int, b: int|
            0 <= a < b < remove_human_by_id(hs, id).len() ==> (#[trigger] remove_human_by_id(
                hs,
                id,
            )[a]).id != (#[trigger] remove_human_by_id(hs, id)[b]).id,
        forall|x: u32|
            #[trigger] human_has_id(remove_human_by_id(hs, id), x) <==> (x != id && human_has_id(
                hs,
                x,
            )),
        remove_human_by_id(hs, id).len() == if human_has_id(hs, id) {
            hs.len() - 1
        } else {
            hs.len() as int
        },
        (forall|j: int| 0 <= j < hs.len() ==> (#[trigger] hs[j]).wf()) ==> (forall|j: int|
            0 <= j < remove_human_by_id(hs, id).len() ==> (#[trigger] remove_human_by_id(
                hs,
                id,
            )[j]).wf()),
{
    lemma_human_index_of(hs, id);
    let k = human_index_of(hs, id);
    let t = remove_human_by_id(hs, id);
    if k >= 0 {
        assert(human_has_id(hs, id));
        assert forall|a: int, b: int| 0 <= a < b < t.len() implies (#[trigger] t[a]).id != (
        #[trigger] t[b]).id by {
            let a0 = if a < k {
                a
            } else {
                a + 1
            };
            let b0 = if b < k {
                b
            } else {
                b + 1
            };
            assert(t[a] == hs[a0] && t[b] == hs[b0]);
        }
        assert forall|x: u32| #[trigger] human_has_id(t, x) <==> (x != id && human_has_id(
            hs,
            x,
        )) by {
            if human_has_id(t, x) {
                let w = choose|w: int| 0 <= w < t.len() && (#[trigger] t[w]).id == x;
                let w0 = if w < k {
                    w
                } else {
                    w + 1
                };
                assert(t[w] == hs[w0]);
                assert(hs[w0].id == x);
                if w0 < k {
                    assert(hs[w0].id != hs[k].id);
                } else {
                    assert(hs[k].id != hs[w0].id);
                }
            }
            if x != id && human_has_id(hs, x) {
                let w = choose|w: int| 0 <= w < hs.len() && (#[trigger] hs[w]).id == x;
                assert(w != k);
                let w1 = if w < k {
                    w
                } else {
                    w - 1
                };
                assert(t[w1] == hs[w]);
            }
        }
        assert forall|j: int|
            (forall|j2: int| 0 <= j2 < hs.len() ==> (#[trigger] hs[j2]).wf()) && 0 <= j < t.len()
                implies (#[trigger] t[j]).wf() by {
            let j0 = if j < k {
                j
            } else {
                j + 1
            };
            assert(t[j] == hs[j0]);
        }
    } else {
        assert(t == hs);
        if human_has_id(hs, id) {
            let w = choose|w: int| 0 <= w < hs.len() && (#[trigger] hs[w]).id == id;
            assert(hs[w].id != id);
        }
    }
}

/// Taking one id's enemy out keeps ids unique and removes exactly
/// that id from the roster.
proof fn lemma_remove_enemy_props(es: Seq<EnemyV>, id: u32)
    requires
        forall|a: int, b: int|
            0 <= a < b < es.len() ==> (#[trigger] es[a]).id != (#[trigger] es[b]).id,
    ensures
        forall|a: int, b: int|
            0 <= a < b < remove_enemy_by_id(es, id).len() ==> (#[trigger] remove_enemy_by_id(
                es,
                id,
            )[a]).id != (#[trigger] remove_enemy_by_id(es, id)[b]).id,
        forall|x: u32|
            #[trigger] enemy_has_id(remove_enemy_by_id(es, id), x) <==> (x != id && enemy_has_id(
                es,
                x,
            )),
        remove_enemy_by_id(es, id).len() == if enemy_has_id(es, id) {
            es.len() - 1
        } else {
            es.len() as int
        },
        (forall|j: int| 0 <= j < es.len() ==> (#[trigger] es[j]).wf()) ==> (forall|j: int|
            0 <= j < remove_enemy_by_id(es, id).len() ==> (#[trigger] remove_enemy_by_id(
                es,
                id,
            )[j]).wf()),
{
    lemma_enemy_index_of(es, id);
    let k = enemy_index_of(es, id);
    let t = remove_enemy_by_id(es, id);
    if k >= 0 {
        assert(enemy_has_id(es, id));
        assert forall|a: int, b: int| 0 <= a < b < t.len() implies (#[trigger] t[a]).id != (
        #[trigger] t[b]).id by {
            let a0 = if a < k {
                a
            } else {
                a + 1
            };
            let b0 = if b < k {
                b
            } else {
                b + 1
            };
            assert(t[a] == es[a0] && t[b] == es[b0]);
        }
        assert forall|x: u32| #[trigger] enemy_has_id(t, x) <==> (x != id && enemy_has_id(
            es,
            x,
        )) by {
            if enemy_has_id(t, x) {
                let w = choose|w: int| 0 <= w < t.len() && (#[trigger] t[w]).id == x;
                let w0 = if w < k {
                    w
                } else {
                    w + 1
                };
                assert(t[w] == es[w0]);
                assert(es[w0].id == x);
                if w0 < k {
                    assert(es[w0].id != es[k].id);
                } else {
                    assert(es[k].id != es[w0].id);
                }
            }
            if x != id && enemy_has_id(es, x) {
                let w = choose|w: int| 0 <= w < es.len() && (#[trigger] es[w]).id == x;
                assert(w != k);
                let w1 = if w < k {
                    w
                } else {
                    w - 1
                };
                assert(t[w1] == es[w]);
            }
        }
        assert forall|j: int|
            (forall|j2: int| 0 <= j2 < es.len() ==> (#[trigger] es[j2]).wf()) && 0 <= j < t.len()
                implies (#[trigger] t[j]).wf() by {
            let j0 = if j < k {
                j
            } else {
                j + 1
            };
            assert(t[j] == es[j0]);
        }
    } else {
        assert(t == es);
        if enemy_has_id(es, id) {
            let w = choose|w: int| 0 <= w < es.len() && (#[trigger] es[w]).id == id;
            assert(es[w].id != id);
        }
    }
}

/// Take the first human carrying this id out of the roster.
fn remove_human_entity(v: &mut Vec<Human>, id: u32)
    ensures
        humans_views(final(v)@) == remove_human_by_id(humans_views(old(v)@), id),
{
    proof {
        lemma_human_index_of(humans_views(v@), id);
    }
    let ghost s0 = humans_views(v@);
    let mut i: usize = 0;
    while i < v.len()
        invariant
            0 <= i <= s0.len(),
            humans_views(v@) == s0,
            s0 == humans_views(old(v)@),
            s0.len() == v@.len(),
            forall|j: int| 0 <= j < i ==> (#[trigger] s0[j]).id != id,
            human_index_of(s0, id) == -1 || 0 <= human_index_of(s0, id) < s0.len(),
            human_index_of(s0, id) >= 0 ==> s0[human_index_of(s0, id)].id == id,
            human_index_of(s0, id) >= 0 ==> forall|j: int|
                0 <= j < human_index_of(s0, id) ==> (#[trigger] s0[j]).id != id,
            human_index_of(s0, id) == -1 ==> forall|j: int|
                0 <= j < s0.len() ==> (#[trigger] s0[j]).id != id,
        decreases s0.len() - i,
    {
        let h = v[i];
        proof {
            assert(humans_views(v@)[i as int] == v@[i as int]@);
        }
        if h.id == id {
            v.remove(i);
            proof {
                assert(s0[i as int].id == id);
                let k = human_index_of(s0, id);
                if k == -1 {
                    assert(s0[i as int].id != id);
                } else if k < i as int {
                    assert(s0[k].id != id);
                } else if k > i as int {
                    assert(s0[i as int].id != id);
                }
                assert(human_index_of(s0, id) == i);
                assert(humans_views(v@) =~= s0.remove(i as int));
            }
            return ;
        }
        i = i + 1;
    }
    proof {
        assert(human_index_of(s0, id) == -1);
    }
}

/// Take the first enemy carrying this id out of the roster.
fn remove_enemy_entity(v: &mut Vec<Enemy>, id: u32)
    ensures
        enemies_views(final(v)@) == remove_enemy_by_id(enemies_views(old(v)@), id),
{
    proof {
        lemma_enemy_index_of(enemies_views(v@), id);
    }
    let ghost s0 = enemies_views(v@);
    let mut i: usize = 0;
    while i < v.len()
        invariant
            0 <= i <= s0.len(),
            enemies_views(v@) == s0,
            s0 == enemies_views(old(v)@),
            s0.len() == v@.len(),
            forall|j: int| 0 <= j < i ==> (#[trigger] s0[j]).id != id,
            enemy_index_of(s0, id) == -1 || 0 <= enemy_index_of(s0, id) < s0.len(),
            enemy_index_of(s0, id) >= 0 ==> s0[enemy_index_of(s0, id)].id == id,
            enemy_index_of(s0, id) >= 0 ==> forall|j: int|
                0 <= j < enemy_index_of(s0, id) ==> (#[trigger] s0[j]).id != id,
            enemy_index_of(s0, id) == -1 ==> forall|j: int|
                0 <= j < s0.len() ==> (#[trigger] s0[j]).id != id,
        decreases s0.len() - i,
    {
        let found = v[i].id == id;
        proof {
            assert(enemies_views(v@)[i as int] == v@[i as int]@);
        }
        if found {
            v.remove(i);
            proof {
                assert(s0[i as int].id == id);
                let k = enemy_index_of(s0, id);
                if k == -1 {
                    assert(s0[i as int].id != id);
                } else if k < i as int {
                    assert(s0[k].id != id);
                } else if k > i as int {
                    assert(s0[i as int].id != id);
                }
                assert(enemy_index_of(s0, id) == i);
                assert(enemies_views(v@) =~= s0.remove(i as int));
            }
            return ;
        }
        i = i + 1;
    }
    proof {
        assert(enemy_index_of(s0, id) == -1);
    }
}

/// An element-for-element copy of a position list.
fn clone_positions(v: &Vec<Vec2>) -> (r: Vec<Vec2>)
    ensures
        r@ == v@,
{
    let mut r: Vec<Vec2> = Vec::new();
    let mut i: usize = 0;
    while i < v.len()
        invariant
            0 <= i <= v@.len(),
            r@ == v@.subrange(0, i as int),
        decreases v@.len() - i,
    {
        r.push(v[i]);
        i = i + 1;
    }
    proof {
        assert(v@.subrange(0, v@.len() as int) =~= v@);
    }
    r
}

} // verus!

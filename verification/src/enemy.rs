//! The attacker: always alert, it runs toward the window's midpoint,
//! engages humans first and buildings second, and attacks on cooldown.

use vstd::prelude::*;
use crate::clamp_hp;
use crate::fight::{apply_damage_seq, dmg_views, EntityFightStatus};
use crate::motion::{
    decayed_velocity, saturating_elapse, scaled_step, spec_decayed_velocity, spec_saturating_elapse,
    spec_scaled_step, spec_wrapped_x, wrapped_x, EnemyComing, PhysicalStates, Vec2, Vec2V,
    STEP_LIMIT,
};
use crate::posmap::{pm_bounded, PositionMap, spec_insert_pos};
use crate::settings::{
    ATTACK_COOLDOWN_MS, BUILDING_ID_BIAS, BUILDING_REACH, DAMAGE_LIMIT, ENEMY_SPAWN_X,
    ENEMY_WALK_SPEED, ENEMY_X_LIMIT, FRICTION, GROUND_POS_Y, HUMANS_MAX_HP, HUMANS_WALK_SPEED,
    MAX_TICK_MS, MILLI, POS_LIMIT, TIMER_CAP_MS, UNIT_ATTACK_DAMAGE, UNIT_SIZE_X, UNIT_SIZE_Y,
    WINDOW_WIDTH,
};

verus! {

/// Behavioural state of an enemy attacker.
#[derive(Clone, Copy, PartialEq, Eq, Structural, Debug)]
pub enum EnemyState {
    Running,
    Attacking,
    AttackWaiting,
}

/// Largest number of buildings an enemy will scan for targets.
pub const BUILDING_COUNT_LIMIT: usize = 10_000;

/// An enemy attacker.
pub struct Enemy {
    pub id: u32,
    pub position: Vec2,
    pub size: Vec2,
    pub current_state: EnemyState,
    /// Time spent since the last state-timer restart, in milliseconds.
    pub state_elapsed_ms: i64,
    /// Time since the last attack-timer restart, in milliseconds.
    pub attack_elapsed_ms: i64,
    pub physical_states: PhysicalStates,
    pub fight_status: EntityFightStatus,
    /// Pending (target id, damage) pair awaiting delivery.
    pub attack_target: Option<(u32, i64)>,
    /// Latched direction the rival roster is approaching from.
    pub rival_direction: Option<EnemyComing>,
    /// Positions of the defended buildings, refreshed every tick.
    pub building_pos_list: Vec<Vec2>,
}

/// Mathematical view of an enemy attacker.
#[verifier::ext_equal]
pub ghost struct EnemyV {
    pub id: u32,
    pub x: int,
    pub y: int,
    pub size_x: int,
    pub size_y: int,
    pub state: EnemyState,
    pub state_ms: int,
    pub attack_ms: int,
    pub velocity: int,
    pub friction: int,
    pub attack_damage: int,
    pub armor: int,
    pub is_infant: Option<bool>,
    pub hp: int,
    pub attack_target: Option<(u32, int)>,
    pub rival_direction: Option<EnemyComing>,
    pub building_pos: Seq<Vec2V>,
}

impl View for Enemy {
    type V = EnemyV;

    open spec fn view(&self) -> EnemyV {
        EnemyV {
            id: self.id,
            x: self.position.x as int,
            y: self.position.y as int,
            size_x: self.size.x as int,
            size_y: self.size.y as int,
            state: self.current_state,
            state_ms: self.state_elapsed_ms as int,
            attack_ms: self.attack_elapsed_ms as int,
            velocity: self.physical_states.velocity as int,
            friction: self.physical_states.friction as int,
            attack_damage: self.fight_status.attack_damage as int,
            armor: self.fight_status.armor as int,
            is_infant: self.fight_status.is_infant,
            hp: self.fight_status.hp as int,
            attack_target: match self.attack_target {
                Some((t, d)) => Some((t, d as int)),
                None => None,
            },
            rival_direction: self.rival_direction,
            building_pos: self.building_pos_list@.map_values(|p: Vec2| p@),
        }
    }
}

/// Every listed building position is small enough for reach arithmetic.
pub open spec fn buildings_bounded(ps: Seq<Vec2V>) -> bool {
    forall|k: int| 0 <= k < ps.len() ==> -POS_LIMIT <= (#[trigger] ps[k]).x <= POS_LIMIT
}

impl EnemyV {
    /// Well-formedness kept across every tick.
    pub open spec fn wf(self) -> bool {
        &&& 0 <= self.x <= ENEMY_X_LIMIT
        &&& -POS_LIMIT <= self.y <= POS_LIMIT
        &&& self.size_x == UNIT_SIZE_X
        &&& self.size_y == UNIT_SIZE_Y
        &&& -HUMANS_WALK_SPEED <= self.velocity <= HUMANS_WALK_SPEED
        &&& self.friction == FRICTION
        &&& 0 <= self.hp <= HUMANS_MAX_HP
        &&& 0 <= self.attack_damage <= DAMAGE_LIMIT
        &&& 0 <= self.state_ms <= TIMER_CAP_MS
        &&& 0 <= self.attack_ms <= TIMER_CAP_MS
        &&& match self.attack_target {
            Some((_, d)) => 0 <= d <= DAMAGE_LIMIT,
            None => true,
        }
        &&& buildings_bounded(self.building_pos)
        &&& self.building_pos.len() <= BUILDING_COUNT_LIMIT
    }
}

/// Both elapsed-time counters advanced by the tick's delta-time.
pub open spec fn enemy_elapse(e: EnemyV, dt: int) -> EnemyV {
    EnemyV {
        state_ms: spec_saturating_elapse(e.state_ms, dt),
        attack_ms: spec_saturating_elapse(e.attack_ms, dt),
        ..e
    }
}

/// Latch the rival roster's direction on first contact.  Enemies are
/// always alert, so no alerted transition follows.
pub open spec fn enemy_latch(e: EnemyV, rival_coming: Option<EnemyComing>) -> EnemyV {
    match rival_coming {
        Some(d) => match e.rival_direction {
            None => EnemyV { rival_direction: Some(d), ..e },
            Some(_) => e,
        },
        None => e,
    }
}

/// Whether a rival at `rival_x` is within this enemy's reach: the
/// enemy's left edge passes the rival's right edge.
pub open spec fn enemy_reach_hits(e: EnemyV, rival_x: int) -> bool {
    e.x - e.size_x / 2 < rival_x + e.size_x / 2
}

/// Whether a building at `bx` is within this enemy's reach.
pub open spec fn enemy_building_hits(e: EnemyV, bx: int) -> bool {
    e.x - e.size_x / 2 < bx + BUILDING_REACH
}

/// First rival in index order that is within reach.
pub open spec fn enemy_first_human_target(e: EnemyV, rivals: Seq<(u32, Vec2V)>) -> Option<u32>
    decreases rivals.len(),
{
    if rivals.len() == 0 {
        None
    } else if enemy_reach_hits(e, rivals[0].1.x) {
        Some(rivals[0].0)
    } else {
        enemy_first_human_target(e, rivals.skip(1))
    }
}

/// First building in index order that is within reach; its target id is
/// the building's index offset by `base`.
pub open spec fn enemy_first_building_target(e: EnemyV, buildings: Seq<Vec2V>, base: u32) -> Option<
    u32,
>
    decreases buildings.len(),
{
    if buildings.len() == 0 {
        None
    } else if enemy_building_hits(e, buildings[0].x) {
        Some(base)
    } else if base == u32::MAX {
        None
    } else {
        enemy_first_building_target(e, buildings.skip(1), (base + 1) as u32)
    }
}

/// Target acquisition, gated on the attack cooldown: humans first, then
/// buildings, whose ids carry the fixed bias so they never collide with
/// unit ids.
pub open spec fn enemy_generate_target(e: EnemyV, rivals: Seq<(u32, Vec2V)>) -> Option<u32> {
    if e.attack_ms > ATTACK_COOLDOWN_MS {
        match enemy_first_human_target(e, rivals) {
            Some(t) => Some(t),
            None => enemy_first_building_target(e, e.building_pos, BUILDING_ID_BIAS),
        }
    } else {
        None
    }
}

/// The behaviour-control step for the current state.
pub open spec fn enemy_behaviour(e: EnemyV, dt: int, rivals: Seq<(u32, Vec2V)>) -> EnemyV {
    match e.state {
        EnemyState::Running => {
            let step = spec_scaled_step(ENEMY_WALK_SPEED as int, dt);
            let e1 = if e.x > WINDOW_WIDTH / 2 {
                EnemyV { x: e.x - step, ..e }
            } else {
                EnemyV { x: e.x + step, ..e }
            };
            match enemy_generate_target(e1, rivals) {
                Some(tid) => EnemyV {
                    state: EnemyState::Attacking,
                    attack_target: Some((tid, e1.attack_damage)),
                    ..e1
                },
                None => e1,
            }
        },
        EnemyState::Attacking => if e.attack_ms > ATTACK_COOLDOWN_MS {
            match e.attack_target {
                Some((tid, _)) => EnemyV {
                    attack_target: Some((tid, e.attack_damage)),
                    attack_ms: 0,
                    ..e
                },
                None => e,
            }
        } else {
            EnemyV { state: EnemyState::AttackWaiting, ..e }
        },
        EnemyState::AttackWaiting => if e.attack_ms > ATTACK_COOLDOWN_MS {
            EnemyV { state: EnemyState::Attacking, ..e }
        } else {
            e
        },
    }
}

/// One tick of velocity decay.
pub open spec fn enemy_friction(e: EnemyV, dt: int) -> EnemyV {
    EnemyV { velocity: spec_decayed_velocity(e.velocity, e.friction, dt), ..e }
}

/// Horizontal screen wrap; enemies are not player-side, so they wrap
/// only when leaving on the left.
pub open spec fn enemy_wrap(e: EnemyV) -> EnemyV {
    EnemyV { x: spec_wrapped_x(e.x, false), ..e }
}

/// One full per-tick update of an enemy, in order: advance the clocks,
/// latch the rival direction, run behaviour control, decay the
/// velocity, wrap the position.
pub open spec fn enemy_update_spec(
    e: EnemyV,
    dt: int,
    rival_coming: Option<EnemyComing>,
    rivals: Seq<(u32, Vec2V)>,
) -> EnemyV {
    enemy_wrap(enemy_friction(enemy_behaviour(enemy_latch(enemy_elapse(e, dt), rival_coming), dt, rivals), dt))
}

/// What the roster collects from this enemy after its update: the
/// pending attack, once the cooldown has elapsed.
pub open spec fn enemy_attack_output(e: EnemyV) -> Option<(u32, int)> {
    if e.attack_ms > ATTACK_COOLDOWN_MS {
        e.attack_target
    } else {
        None
    }
}

impl Enemy {
    /// A fresh attacker: running, unhurt, spawned right of the window.
    pub fn new(id: u32) -> (r: Enemy)
        ensures
            r@ == (EnemyV {
                id,
                x: ENEMY_SPAWN_X as int,
                y: GROUND_POS_Y as int,
                size_x: UNIT_SIZE_X as int,
                size_y: UNIT_SIZE_Y as int,
                state: EnemyState::Running,
                state_ms: 0,
                attack_ms: 0,
                velocity: 0,
                friction: FRICTION as int,
                attack_damage: UNIT_ATTACK_DAMAGE as int,
                armor: 0,
                is_infant: None,
                hp: HUMANS_MAX_HP as int,
                attack_target: None,
                rival_direction: None,
                building_pos: Seq::empty(),
            }),
            r@.wf(),
    {
        let r = Enemy {
            id,
            position: Vec2 { x: ENEMY_SPAWN_X, y: GROUND_POS_Y },
            size: Vec2 { x: UNIT_SIZE_X, y: UNIT_SIZE_Y },
            current_state: EnemyState::Running,
            state_elapsed_ms: 0,
            attack_elapsed_ms: 0,
            physical_states: PhysicalStates { velocity: 0, friction: FRICTION },
            fight_status: EntityFightStatus {
                attack_damage: UNIT_ATTACK_DAMAGE,
                armor: 0,
                is_infant: None,
                hp: HUMANS_MAX_HP,
            },
            attack_target: None,
            rival_direction: None,
            building_pos_list: Vec::new(),
        };
        proof {
            assert(r@.building_pos =~= Seq::<Vec2V>::empty());
        }
        r
    }

    /// Refresh the list of building positions this enemy may target.
    pub fn update_building_pos_list(&mut self, list: Vec<Vec2>)
        ensures
            final(self)@ == (EnemyV {
                building_pos: list@.map_values(|p: Vec2| p@),
                ..old(self)@
            }),
    {
        self.building_pos_list = list;
    }

    pub fn get_id(&self) -> (r: u32)
        ensures
            r == self.id,
    {
        self.id
    }

    pub fn get_hp(&self) -> (r: i64)
        ensures
            r == self.fight_status.hp,
    {
        self.fight_status.hp
    }

    pub fn get_position(&self) -> (r: Vec2)
        ensures
            r == self.position,
    {
        self.position
    }

    pub fn get_size(&self) -> (r: Vec2)
        ensures
            r == self.size,
    {
        self.size
    }

    /// Enemies are not on the player side.
    pub fn is_player(&self) -> (r: bool)
        ensures
            r == false,
    {
        false
    }

    /// Enemies take the unit-sized HP bar.
    pub fn is_human(&self) -> (r: bool)
        ensures
            r == true,
    {
        true
    }

    /// Hit points as the HP-bar drawing reads them.
    pub fn geoinfo_get_hp(&self) -> (r: i64)
        ensures
            r == self.fight_status.hp,
    {
        self.fight_status.hp
    }

    pub fn fight_status(&self) -> (r: EntityFightStatus)
        ensures
            r == self.fight_status,
    {
        self.fight_status
    }

    pub fn physical_states(&self) -> (r: PhysicalStates)
        ensures
            r == self.physical_states,
    {
        self.physical_states
    }

    pub fn current_state(&self) -> (r: EnemyState)
        ensures
            r == self.current_state,
    {
        self.current_state
    }

    pub fn set_current_state(&mut self, state: EnemyState)
        ensures
            final(self)@ == (EnemyV { state, ..old(self)@ }),
    {
        self.current_state = state;
    }

    /// Milliseconds on the state clock since its last restart.
    pub fn state_timer(&self) -> (r: i64)
        ensures
            r == self.state_elapsed_ms,
    {
        self.state_elapsed_ms
    }

    /// Milliseconds on the attack clock since its last restart.
    pub fn attack_timer(&self) -> (r: i64)
        ensures
            r == self.attack_elapsed_ms,
    {
        self.attack_elapsed_ms
    }

    pub fn attack_target(&self) -> (r: Option<(u32, i64)>)
        ensures
            r == self.attack_target,
    {
        self.attack_target
    }

    pub fn set_attack_target(&mut self, target: Option<(u32, i64)>)
        ensures
            final(self).attack_target == target,
            final(self)@ == (EnemyV {
                attack_target: match target {
                    Some((t, d)) => Some((t, d as int)),
                    None => None,
                },
                ..old(self)@
            }),
    {
        self.attack_target = target;
    }

    pub fn rival_dir(&self) -> (r: Option<EnemyComing>)
        ensures
            r == self.rival_direction,
    {
        self.rival_direction
    }

    pub fn set_rival_dir(&mut self, dir: Option<EnemyComing>)
        ensures
            final(self)@ == (EnemyV { rival_direction: dir, ..old(self)@ }),
    {
        self.rival_direction = dir;
    }

    /// Write new hit points, clamped into `[0, HUMANS_MAX_HP]` (humans
    /// and enemies share one maximum).
    pub fn set_hp(&mut self, new_hp: i64)
        ensures
            final(self)@ == (EnemyV {
                hp: clamp_hp(new_hp as int, HUMANS_MAX_HP as int),
                ..old(self)@
            }),
            0 <= final(self).fight_status.hp <= HUMANS_MAX_HP,
    {
        if new_hp < 0 {
            self.fight_status.hp = 0;
        } else if new_hp > HUMANS_MAX_HP {
            self.fight_status.hp = HUMANS_MAX_HP;
        } else {
            self.fight_status.hp = new_hp;
        }
    }

    /// Apply a list of queued damage amounts in order, each through the
    /// clamped hit-point write.
    pub fn apply_damage_list(&mut self, dmgs: &Vec<i64>)
        requires
            0 <= old(self).fight_status.hp <= HUMANS_MAX_HP,
            forall|k: int| 0 <= k < dmgs@.len() ==> 0 <= #[trigger] dmgs@[k] <= DAMAGE_LIMIT,
        ensures
            final(self)@ == (EnemyV {
                hp: apply_damage_seq(old(self)@.hp, dmg_views(dmgs@), HUMANS_MAX_HP as int),
                ..old(self)@
            }),
            0 <= final(self).fight_status.hp <= HUMANS_MAX_HP,
    {
        let new_hp = crate::fight::apply_damage_core(self.fight_status.hp, dmgs, HUMANS_MAX_HP);
        self.fight_status.hp = new_hp;
    }

    /// Move by `vec`, scaled by the 60 Hz-normalised delta-time step.
    pub fn move_(&mut self, vec: Vec2, dt_ms: i64)
        requires
            -HUMANS_WALK_SPEED <= vec.x <= HUMANS_WALK_SPEED,
            -HUMANS_WALK_SPEED <= vec.y <= HUMANS_WALK_SPEED,
            0 <= dt_ms <= MAX_TICK_MS,
            -POS_LIMIT <= old(self).position.x <= POS_LIMIT,
            -POS_LIMIT <= old(self).position.y <= POS_LIMIT,
        ensures
            final(self)@ == (EnemyV {
                x: old(self)@.x + spec_scaled_step(vec.x as int, dt_ms as int),
                y: old(self)@.y + spec_scaled_step(vec.y as int, dt_ms as int),
                ..old(self)@
            }),
            old(self)@.x - STEP_LIMIT <= final(self)@.x <= old(self)@.x + STEP_LIMIT,
            old(self)@.y - STEP_LIMIT <= final(self)@.y <= old(self)@.y + STEP_LIMIT,
    {
        let dx = scaled_step(vec.x, dt_ms);
        let dy = scaled_step(vec.y, dt_ms);
        self.position = Vec2 { x: self.position.x + dx, y: self.position.y + dy };
    }

    /// Decay the velocity toward zero by friction.
    pub fn velocity_update(&mut self, dt_ms: i64)
        requires
            -HUMANS_WALK_SPEED <= old(self).physical_states.velocity <= HUMANS_WALK_SPEED,
            0 <= old(self).physical_states.friction <= MILLI,
            0 <= dt_ms <= MAX_TICK_MS,
        ensures
            final(self)@ == enemy_friction(old(self)@, dt_ms as int),
            -HUMANS_WALK_SPEED <= final(self).physical_states.velocity <= HUMANS_WALK_SPEED,
    {
        self.physical_states.velocity = decayed_velocity(
            self.physical_states.velocity,
            self.physical_states.friction,
            dt_ms,
        );
    }

    /// Wrap the horizontal position; enemies only wrap on the left edge.
    pub fn position_check(&mut self)
        requires
            -WINDOW_WIDTH <= old(self).position.x <= 2 * WINDOW_WIDTH,
        ensures
            final(self)@ == enemy_wrap(old(self)@),
            -STEP_LIMIT <= old(self)@.x <= ENEMY_X_LIMIT ==> 0 <= final(self).position.x
                <= ENEMY_X_LIMIT,
    {
        self.position = Vec2 { x: wrapped_x(self.position.x, false), y: self.position.y };
    }

    /// Enemies are always alert: the alerted transition does nothing.
    pub fn rival_coming_state_changer(&mut self)
        ensures
            *final(self) == *old(self),
    {
    }

    /// Enemies have no disengage rule: the opposing signal's absence
    /// changes nothing.
    pub fn state_changer(&mut self, _rival_coming: Option<EnemyComing>)
        ensures
            *final(self) == *old(self),
    {
    }

    /// First human within reach, else first building within reach under
    /// the fixed id bias; gated on the attack cooldown.
    pub fn generate_target_to_attack(&self, rival_pos_list: &PositionMap) -> (r: Option<u32>)
        requires
            -POS_LIMIT <= self.position.x <= POS_LIMIT,
            self.size.x == UNIT_SIZE_X,
            pm_bounded(rival_pos_list@),
            buildings_bounded(self@.building_pos),
            self.building_pos_list@.len() <= BUILDING_COUNT_LIMIT,
        ensures
            r == enemy_generate_target(self@, rival_pos_list@),
    {
        if self.attack_elapsed_ms <= ATTACK_COOLDOWN_MS {
            return None;
        }
        let ghost rivals = rival_pos_list@;
        let n = rival_pos_list.len();
        let mut i: usize = 0;
        proof {
            assert(rivals.skip(0) =~= rivals);
        }
        while i < n
            invariant
                0 <= i <= n,
                n == rivals.len(),
                rivals == rival_pos_list@,
                pm_bounded(rivals),
                -POS_LIMIT <= self.position.x <= POS_LIMIT,
                self.size.x == UNIT_SIZE_X,
                self.attack_elapsed_ms > ATTACK_COOLDOWN_MS,
                enemy_first_human_target(self@, rivals) == enemy_first_human_target(
                    self@,
                    rivals.skip(i as int),
                ),
            decreases n - i,
        {
            let (_rid, rpos) = rival_pos_list.entry_at(i);
            proof {
                assert(rivals.skip(i as int)[0] == rivals[i as int]);
                assert(rivals.skip(i as int).skip(1) =~= rivals.skip(i as int + 1));
            }
            let half = self.size.x / 2;
            if self.position.x - half < rpos.x + half {
                let (rid, _) = rival_pos_list.entry_at(i);
                return Some(rid);
            }
            i = i + 1;
        }
        let ghost bs = self@.building_pos;
        let m = self.building_pos_list.len();
        let mut j: usize = 0;
        proof {
            assert(bs.skip(0) =~= bs);
        }
        while j < m
            invariant
                0 <= j <= m,
                m == bs.len(),
                m <= BUILDING_COUNT_LIMIT,
                bs == self@.building_pos,
                buildings_bounded(bs),
                -POS_LIMIT <= self.position.x <= POS_LIMIT,
                self.size.x == UNIT_SIZE_X,
                self.attack_elapsed_ms > ATTACK_COOLDOWN_MS,
                enemy_first_human_target(self@, rival_pos_list@) == None::<u32>,
                enemy_first_building_target(self@, bs, BUILDING_ID_BIAS)
                    == enemy_first_building_target(
                    self@,
                    bs.skip(j as int),
                    (BUILDING_ID_BIAS + j) as u32,
                ),
            decreases m - j,
        {
            let bpos = self.building_pos_list[j];
            proof {
                assert(bs.skip(j as int)[0] == bs[j as int]);
                assert(bs.skip(j as int).skip(1) =~= bs.skip(j as int + 1));
                assert(bs[j as int] == bpos@);
            }
            let half = self.size.x / 2;
            if self.position.x - half < bpos.x + BUILDING_REACH {
                return Some(BUILDING_ID_BIAS + j as u32);
            }
            j = j + 1;
        }
        None
    }

    /// Behaviour control for the current state: runners close on the
    /// window's midpoint and acquire targets, attackers re-queue on
    /// cooldown.
    pub fn entity_behaviour_control(&mut self, dt_ms: i64, rival_pos_list: &PositionMap)
        requires
            old(self)@.wf(),
            0 <= dt_ms <= MAX_TICK_MS,
            pm_bounded(rival_pos_list@),
        ensures
            final(self)@ == enemy_behaviour(old(self)@, dt_ms as int, rival_pos_list@),
            -STEP_LIMIT <= final(self)@.x <= ENEMY_X_LIMIT,
            -HUMANS_WALK_SPEED <= final(self).physical_states.velocity <= HUMANS_WALK_SPEED,
            0 <= final(self).state_elapsed_ms <= TIMER_CAP_MS,
            0 <= final(self).attack_elapsed_ms <= TIMER_CAP_MS,
            final(self).physical_states.friction == old(self).physical_states.friction,
            final(self).fight_status.hp == old(self).fight_status.hp,
            final(self).id == old(self).id,
            match final(self)@.attack_target {
                Some((_, d)) => 0 <= d <= DAMAGE_LIMIT,
                None => true,
            },
            final(self)@.y == old(self)@.y,
            final(self)@.size_x == old(self)@.size_x,
            final(self)@.size_y == old(self)@.size_y,
            final(self)@.attack_damage == old(self)@.attack_damage,
            final(self)@.armor == old(self)@.armor,
            final(self)@.is_infant == old(self)@.is_infant,
            final(self)@.building_pos == old(self)@.building_pos,
    {
        match self.current_state {
            EnemyState::Running => {
                if self.position.x > WINDOW_WIDTH / 2 {
                    self.move_(Vec2 { x: -ENEMY_WALK_SPEED, y: 0 }, dt_ms);
                } else {
                    self.move_(Vec2 { x: ENEMY_WALK_SPEED, y: 0 }, dt_ms);
                }
                proof {
                    assert(spec_scaled_step(-ENEMY_WALK_SPEED as int, dt_ms as int)
                        == -spec_scaled_step(ENEMY_WALK_SPEED as int, dt_ms as int));
                }
                if let Some(attack_target_id) = self.generate_target_to_attack(rival_pos_list) {
                    self.current_state = EnemyState::Attacking;
                    self.attack_target = Some((attack_target_id, self.fight_status.attack_damage));
                }
            },
            EnemyState::Attacking => {
                if self.attack_elapsed_ms > ATTACK_COOLDOWN_MS {
                    if let Some((tid, _queued)) = self.attack_target {
                        self.attack_target = Some((tid, self.fight_status.attack_damage));
                        self.attack_elapsed_ms = 0;
                    }
                } else {
                    self.current_state = EnemyState::AttackWaiting;
                }
            },
            EnemyState::AttackWaiting => {
                if self.attack_elapsed_ms > ATTACK_COOLDOWN_MS {
                    self.current_state = EnemyState::Attacking;
                }
            },
        }
    }

    /// One full per-tick update: advance the clocks, latch the rival
    /// direction, run behaviour control, decay velocity, wrap the
    /// position, and record the new position under this enemy's id.
    pub fn update(
        &mut self,
        dt_ms: i64,
        pos_list: &mut PositionMap,
        rival_coming: Option<EnemyComing>,
        rival_pos_list: &PositionMap,
    )
        requires
            old(self)@.wf(),
            0 <= dt_ms <= MAX_TICK_MS,
            old(pos_list).wf(),
            pm_bounded(rival_pos_list@),
        ensures
            final(self)@ == enemy_update_spec(
                old(self)@,
                dt_ms as int,
                rival_coming,
                rival_pos_list@,
            ),
            final(self)@.wf(),
            final(self).id == old(self).id,
            final(pos_list)@ == spec_insert_pos(
                old(pos_list)@,
                old(self).id,
                Vec2V { x: final(self)@.x, y: final(self)@.y },
            ),
            final(pos_list).wf(),
            final(pos_list)@.len() == if crate::posmap::pm_contains(old(pos_list)@, old(self).id) {
                old(pos_list)@.len() as int
            } else {
                old(pos_list)@.len() + 1int
            },
            forall|x: u32|
                #[trigger] crate::posmap::pm_contains(final(pos_list)@, x) <==> (x == old(self).id
                    || crate::posmap::pm_contains(old(pos_list)@, x)),
            pm_bounded(old(pos_list)@) ==> pm_bounded(final(pos_list)@),
    {
        self.state_elapsed_ms = saturating_elapse(self.state_elapsed_ms, dt_ms);
        self.attack_elapsed_ms = saturating_elapse(self.attack_elapsed_ms, dt_ms);
        let ghost e1 = enemy_elapse(old(self)@, dt_ms as int);
        proof {
            assert(self@ == e1);
        }
        if let Some(dir) = rival_coming {
            if self.rival_direction.is_none() {
                self.rival_direction = Some(dir);
            }
            self.rival_coming_state_changer();
        }
        let ghost e2 = enemy_latch(e1, rival_coming);
        proof {
            assert(self@ == e2);
        }
        self.state_changer(rival_coming);
        self.entity_behaviour_control(dt_ms, rival_pos_list);
        let ghost e3 = enemy_behaviour(e2, dt_ms as int, rival_pos_list@);
        proof {
            assert(self@ == e3);
        }
        self.velocity_update(dt_ms);
        self.position_check();
        pos_list.insert(self.id, self.position);
    }

    /// The queued attack this enemy delivers this tick, if its cooldown
    /// has already elapsed.
    pub fn get_attack_target(&self) -> (r: Option<(u32, i64)>)
        ensures
            self.attack_elapsed_ms > ATTACK_COOLDOWN_MS ==> r == self.attack_target,
            self.attack_elapsed_ms <= ATTACK_COOLDOWN_MS ==> r == None::<(u32, i64)>,
            match r {
                Some((t, d)) => enemy_attack_output(self@) == Some((t, d as int)),
                None => enemy_attack_output(self@) == None::<(u32, int)>,
            },
    {
        if self.attack_elapsed_ms > ATTACK_COOLDOWN_MS {
            return self.attack_target;
        }
        None
    }
}

} // verus!

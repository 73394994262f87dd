//! The player-side defender: a finite-state walker that idles, strolls,
//! runs toward an approaching enemy, and attacks on contact.

use vstd::prelude::*;
use crate::clamp_hp;
use crate::fight::{apply_damage_seq, dmg_views, EntityFightStatus};
use crate::motion::{
    decayed_velocity, saturating_elapse, scaled_step, spec_decayed_velocity, spec_saturating_elapse,
    spec_scaled_step, spec_wrapped_x, wrapped_x, EnemyComing, PhysicalStates, Vec2, Vec2V,
    STEP_LIMIT,
};
use crate::posmap::{pm_bounded, PositionMap, spec_insert_pos};
use crate::settings::{
    ATTACK_COOLDOWN_MS, DAMAGE_LIMIT, DRAW_BOUND, DRAW_HALF, FRICTION, GROUND_POS_Y,
    HUMANS_IDLE_WALK_SPEED, HUMANS_MAX_HP, HUMANS_WALK_SPEED, HUMAN_SPAWN_X, IDLE_STATE_MS,
    MAX_TICK_MS, MILLI, POS_LIMIT, TIMER_CAP_MS, UNIT_ATTACK_DAMAGE, UNIT_SIZE_X, UNIT_SIZE_Y,
    WALK_STATE_MS, WINDOW_WIDTH,
};

verus! {

/// Behavioural state of a human defender.
#[derive(Clone, Copy, PartialEq, Eq, Structural, Debug)]
pub enum HumanState {
    Idle,
    Walking,
    Running,
    Attacking,
    AttackWaiting,
}

/// A human defender.
#[derive(Clone, Copy, Debug)]
pub struct Human {
    pub id: u32,
    pub position: Vec2,
    pub size: Vec2,
    pub current_state: HumanState,
    /// Time spent since the last state-timer restart, in milliseconds.
    pub state_elapsed_ms: i64,
    /// Time since the last attack-timer restart, in milliseconds.
    pub attack_elapsed_ms: i64,
    pub physical_states: PhysicalStates,
    pub fight_status: EntityFightStatus,
    /// Pending (target id, damage) pair awaiting delivery.
    pub attack_target: Option<(u32, i64)>,
    /// Latched direction the enemies are coming from.
    pub enemy_dir: Option<EnemyComing>,
}

/// Mathematical view of a human defender.
#[verifier::ext_equal]
pub ghost struct HumanV {
    pub id: u32,
    pub x: int,
    pub y: int,
    pub size_x: int,
    pub size_y: int,
    pub state: HumanState,
    pub state_ms: int,
    pub attack_ms: int,
    pub velocity: int,
    pub friction: int,
    pub attack_damage: int,
    pub armor: int,
    pub is_infant: Option<bool>,
    pub hp: int,
    pub attack_target: Option<(u32, int)>,
    pub enemy_dir: Option<EnemyComing>,
}

impl View for Human {
    type V = HumanV;

    open spec fn view(&self) -> HumanV {
        HumanV {
            id: self.id,
            x: self.position.x as int,
            y: self.position.y as int,
            size_x: self.size.x as int,
            size_y: self.size.y as int,
            state: self.current_state,
            state_ms: self.state_elapsed_ms as int,
            attack_ms: self.attack_elapsed_ms as int,
            velocity: self.physical_states.velocity as int,
            friction: self.physical_states.friction as int,
            attack_damage: self.fight_status.attack_damage as int,
            armor: self.fight_status.armor as int,
            is_infant: self.fight_status.is_infant,
            hp: self.fight_status.hp as int,
            attack_target: match self.attack_target {
                Some((t, d)) => Some((t, d as int)),
                None => None,
            },
            enemy_dir: self.enemy_dir,
        }
    }
}

impl HumanV {
    /// Well-formedness kept across every tick.
    pub open spec fn wf(self) -> bool {
        &&& 0 <= self.x <= WINDOW_WIDTH
        &&& -POS_LIMIT <= self.y <= POS_LIMIT
        &&& self.size_x == UNIT_SIZE_X
        &&& self.size_y == UNIT_SIZE_Y
        &&& -HUMANS_WALK_SPEED <= self.velocity <= HUMANS_WALK_SPEED
        &&& self.friction == FRICTION
        &&& 0 <= self.hp <= HUMANS_MAX_HP
        &&& 0 <= self.attack_damage <= DAMAGE_LIMIT
        &&& 0 <= self.state_ms <= TIMER_CAP_MS
        &&& 0 <= self.attack_ms <= TIMER_CAP_MS
        &&& match self.attack_target {
            Some((_, d)) => 0 <= d <= DAMAGE_LIMIT,
            None => true,
        }
    }
}

/// Both elapsed-time counters advanced by the tick's delta-time.
pub open spec fn human_elapse(h: HumanV, dt: int) -> HumanV {
    HumanV {
        state_ms: spec_saturating_elapse(h.state_ms, dt),
        attack_ms: spec_saturating_elapse(h.attack_ms, dt),
        ..h
    }
}

/// Latch the opposing roster's direction on first contact and run the
/// alerted transition: an idle or strolling human starts running.
pub open spec fn human_latch(h: HumanV, rival_coming: Option<EnemyComing>) -> HumanV {
    match rival_coming {
        Some(d) => {
            let h1 = match h.enemy_dir {
                None => HumanV { enemy_dir: Some(d), ..h },
                Some(_) => h,
            };
            match h1.state {
                HumanState::Idle | HumanState::Walking => HumanV {
                    state: HumanState::Running,
                    ..h1
                },
                _ => h1,
            }
        },
        None => h,
    }
}

/// Disengage rule: with no opposing signal, a human stuck waiting to
/// attack forgets its direction and target and goes back to strolling.
pub open spec fn human_disengage(h: HumanV, rival_coming: Option<EnemyComing>) -> HumanV {
    match rival_coming {
        None => if h.state == HumanState::AttackWaiting {
            HumanV {
                enemy_dir: None,
                attack_target: None,
                state: HumanState::Walking,
                ..h
            }
        } else {
            h
        },
        Some(_) => h,
    }
}

/// Whether a rival at `rival_x` is within this human's reach: the
/// human's right edge, under its half-width reach, passes the rival's
/// left edge.
pub open spec fn human_reach_hits(h: HumanV, rival_x: int) -> bool {
    h.x + h.size_x / 2 > rival_x - h.size_x / 2
}

/// First rival in index order that is within reach.
pub open spec fn human_first_target(h: HumanV, rivals: Seq<(u32, Vec2V)>) -> Option<u32>
    decreases rivals.len(),
{
    if rivals.len() == 0 {
        None
    } else if human_reach_hits(h, rivals[0].1.x) {
        Some(rivals[0].0)
    } else {
        human_first_target(h, rivals.skip(1))
    }
}

/// The behaviour-control step for the current state.
pub open spec fn human_behaviour(h: HumanV, dt: int, rivals: Seq<(u32, Vec2V)>, draw: u64) -> HumanV {
    match h.state {
        HumanState::Idle => if h.state_ms > IDLE_STATE_MS {
            let v: int = if draw < DRAW_HALF {
                HUMANS_IDLE_WALK_SPEED as int
            } else {
                -(HUMANS_IDLE_WALK_SPEED as int)
            };
            HumanV { state_ms: 0, state: HumanState::Walking, velocity: v, ..h }
        } else {
            h
        },
        HumanState::Walking => {
            let moved = HumanV { x: h.x + spec_scaled_step(h.velocity, dt), ..h };
            if moved.state_ms > WALK_STATE_MS {
                HumanV { state_ms: 0, state: HumanState::Idle, ..moved }
            } else {
                moved
            }
        },
        HumanState::Running => {
            let h1 = HumanV { velocity: HUMANS_WALK_SPEED as int, ..h };
            let step = spec_scaled_step(HUMANS_WALK_SPEED as int, dt);
            let h2 = match h1.enemy_dir {
                Some(EnemyComing::Right) => HumanV { x: h1.x + step, ..h1 },
                Some(EnemyComing::Left) => HumanV { x: h1.x - step, ..h1 },
                None => HumanV {
                    state: HumanState::Walking,
                    attack_target: None,
                    enemy_dir: None,
                    x: h1.x + step,
                    ..h1
                },
            };
            match human_first_target(h2, rivals) {
                Some(tid) => HumanV {
                    state: HumanState::Attacking,
                    attack_target: Some((tid, h2.attack_damage)),
                    ..h2
                },
                None => h2,
            }
        },
        HumanState::Attacking => if h.attack_ms > ATTACK_COOLDOWN_MS {
            match h.attack_target {
                Some((tid, _)) => HumanV {
                    attack_target: Some((tid, h.attack_damage)),
                    attack_ms: 0,
                    ..h
                },
                None => h,
            }
        } else {
            HumanV { state: HumanState::AttackWaiting, ..h }
        },
        HumanState::AttackWaiting => if h.attack_ms > ATTACK_COOLDOWN_MS {
            HumanV { state: HumanState::Attacking, ..h }
        } else {
            h
        },
    }
}

/// One tick of velocity decay.
pub open spec fn human_friction(h: HumanV, dt: int) -> HumanV {
    HumanV { velocity: spec_decayed_velocity(h.velocity, h.friction, dt), ..h }
}

/// Horizontal screen wrap; humans are player-side and wrap on both ends.
pub open spec fn human_wrap(h: HumanV) -> HumanV {
    HumanV { x: spec_wrapped_x(h.x, true), ..h }
}

/// One full per-tick update of a human, in order: advance the clocks,
/// latch the opposing direction, run the disengage rule, run behaviour
/// control, decay the velocity, wrap the position.
pub open spec fn human_update_spec(
    h: HumanV,
    dt: int,
    rival_coming: Option<EnemyComing>,
    rivals: Seq<(u32, Vec2V)>,
    draw: u64,
) -> HumanV {
    human_wrap(
        human_friction(
            human_behaviour(
                human_disengage(human_latch(human_elapse(h, dt), rival_coming), rival_coming),
                dt,
                rivals,
                draw,
            ),
            dt,
        ),
    )
}

/// What the roster collects from this human after its update: the
/// pending attack, once the cooldown has elapsed.
pub open spec fn human_attack_output(h: HumanV) -> Option<(u32, int)> {
    if h.attack_ms > ATTACK_COOLDOWN_MS {
        h.attack_target
    } else {
        None
    }
}

impl Human {
    /// A fresh defender: idle, unhurt, standing just right of the base.
    pub fn new(id: u32) -> (r: Human)
        ensures
            r@ == (HumanV {
                id,
                x: HUMAN_SPAWN_X as int,
                y: GROUND_POS_Y as int,
                size_x: UNIT_SIZE_X as int,
                size_y: UNIT_SIZE_Y as int,
                state: HumanState::Idle,
                state_ms: 0,
                attack_ms: 0,
                velocity: 0,
                friction: FRICTION as int,
                attack_damage: UNIT_ATTACK_DAMAGE as int,
                armor: 0,
                is_infant: None,
                hp: HUMANS_MAX_HP as int,
                attack_target: None,
                enemy_dir: None,
            }),
            r@.wf(),
    {
        Human {
            id,
            position: Vec2 { x: HUMAN_SPAWN_X, y: GROUND_POS_Y },
            size: Vec2 { x: UNIT_SIZE_X, y: UNIT_SIZE_Y },
            current_state: HumanState::Idle,
            state_elapsed_ms: 0,
            attack_elapsed_ms: 0,
            physical_states: PhysicalStates { velocity: 0, friction: FRICTION },
            fight_status: EntityFightStatus {
                attack_damage: UNIT_ATTACK_DAMAGE,
                armor: 0,
                is_infant: None,
                hp: HUMANS_MAX_HP,
            },
            attack_target: None,
            enemy_dir: None,
        }
    }

    pub fn get_id(&self) -> (r: u32)
        ensures
            r == self.id,
    {
        self.id
    }

    pub fn get_hp(&self) -> (r: i64)
        ensures
            r == self.fight_status.hp,
    {
        self.fight_status.hp
    }

    pub fn get_position(&self) -> (r: Vec2)
        ensures
            r == self.position,
    {
        self.position
    }

    pub fn get_size(&self) -> (r: Vec2)
        ensures
            r == self.size,
    {
        self.size
    }

    /// Humans belong to the player side.
    pub fn is_player(&self) -> (r: bool)
        ensures
            r == true,
    {
        true
    }

    /// Humans take the unit-sized HP bar.
    pub fn is_human(&self) -> (r: bool)
        ensures
            r == true,
    {
        true
    }

    /// Hit points as the HP-bar drawing reads them.
    pub fn geoinfo_get_hp(&self) -> (r: i64)
        ensures
            r == self.fight_status.hp,
    {
        self.fight_status.hp
    }

    pub fn fight_status(&self) -> (r: EntityFightStatus)
        ensures
            r == self.fight_status,
    {
        self.fight_status
    }

    pub fn physical_states(&self) -> (r: PhysicalStates)
        ensures
            r == self.physical_states,
    {
        self.physical_states
    }

    pub fn current_state(&self) -> (r: HumanState)
        ensures
            r == self.current_state,
    {
        self.current_state
    }

    pub fn set_current_state(&mut self, state: HumanState)
        ensures
            final(self)@ == (HumanV { state, ..old(self)@ }),
    {
        self.current_state = state;
    }

    /// Milliseconds on the state clock since its last restart.
    pub fn state_timer(&self) -> (r: i64)
        ensures
            r == self.state_elapsed_ms,
    {
        self.state_elapsed_ms
    }

    /// Milliseconds on the attack clock since its last restart.
    pub fn attack_timer(&self) -> (r: i64)
        ensures
            r == self.attack_elapsed_ms,
    {
        self.attack_elapsed_ms
    }

    pub fn attack_target(&self) -> (r: Option<(u32, i64)>)
        ensures
            r == self.attack_target,
    {
        self.attack_target
    }

    pub fn set_attack_target(&mut self, target: Option<(u32, i64)>)
        ensures
            final(self).attack_target == target,
            final(self)@ == (HumanV {
                attack_target: match target {
                    Some((t, d)) => Some((t, d as int)),
                    None => None,
                },
                ..old(self)@
            }),
    {
        self.attack_target = target;
    }

    pub fn rival_dir(&self) -> (r: Option<EnemyComing>)
        ensures
            r == self.enemy_dir,
    {
        self.enemy_dir
    }

    pub fn set_rival_dir(&mut self, dir: Option<EnemyComing>)
        ensures
            final(self)@ == (HumanV { enemy_dir: dir, ..old(self)@ }),
    {
        self.enemy_dir = dir;
    }

    /// Write new hit points, clamped into `[0, HUMANS_MAX_HP]`: after
    /// any `set_hp` call `0 <= hp <= max_hp` holds for this kind.
    pub fn set_hp(&mut self, new_hp: i64)
        ensures
            final(self)@ == (HumanV {
                hp: clamp_hp(new_hp as int, HUMANS_MAX_HP as int),
                ..old(self)@
            }),
            0 <= final(self).fight_status.hp <= HUMANS_MAX_HP,
    {
        if new_hp < 0 {
            self.fight_status.hp = 0;
        } else if new_hp > HUMANS_MAX_HP {
            self.fight_status.hp = HUMANS_MAX_HP;
        } else {
            self.fight_status.hp = new_hp;
        }
    }

    /// Apply a list of queued damage amounts in order, each through the
    /// clamped hit-point write.
    pub fn apply_damage_list(&mut self, dmgs: &Vec<i64>)
        requires
            0 <= old(self).fight_status.hp <= HUMANS_MAX_HP,
            forall|k: int| 0 <= k < dmgs@.len() ==> 0 <= #[trigger] dmgs@[k] <= DAMAGE_LIMIT,
        ensures
            final(self)@ == (HumanV {
                hp: apply_damage_seq(old(self)@.hp, dmg_views(dmgs@), HUMANS_MAX_HP as int),
                ..old(self)@
            }),
            0 <= final(self).fight_status.hp <= HUMANS_MAX_HP,
    {
        let new_hp = crate::fight::apply_damage_core(self.fight_status.hp, dmgs, HUMANS_MAX_HP);
        self.fight_status.hp = new_hp;
    }

    /// Move by `vec`, scaled by the 60 Hz-normalised delta-time step.
    pub fn move_(&mut self, vec: Vec2, dt_ms: i64)
        requires
            -HUMANS_WALK_SPEED <= vec.x <= HUMANS_WALK_SPEED,
            -HUMANS_WALK_SPEED <= vec.y <= HUMANS_WALK_SPEED,
            0 <= dt_ms <= MAX_TICK_MS,
            -POS_LIMIT <= old(self).position.x <= POS_LIMIT,
            -POS_LIMIT <= old(self).position.y <= POS_LIMIT,
        ensures
            final(self)@ == (HumanV {
                x: old(self)@.x + spec_scaled_step(vec.x as int, dt_ms as int),
                y: old(self)@.y + spec_scaled_step(vec.y as int, dt_ms as int),
                ..old(self)@
            }),
            old(self)@.x - STEP_LIMIT <= final(self)@.x <= old(self)@.x + STEP_LIMIT,
            old(self)@.y - STEP_LIMIT <= final(self)@.y <= old(self)@.y + STEP_LIMIT,
    {
        let dx = scaled_step(vec.x, dt_ms);
        let dy = scaled_step(vec.y, dt_ms);
        self.position = Vec2 { x: self.position.x + dx, y: self.position.y + dy };
    }

    /// Decay the velocity toward zero by friction.
    pub fn velocity_update(&mut self, dt_ms: i64)
        requires
            -HUMANS_WALK_SPEED <= old(self).physical_states.velocity <= HUMANS_WALK_SPEED,
            0 <= old(self).physical_states.friction <= MILLI,
            0 <= dt_ms <= MAX_TICK_MS,
        ensures
            final(self)@ == human_friction(old(self)@, dt_ms as int),
            -HUMANS_WALK_SPEED <= final(self).physical_states.velocity <= HUMANS_WALK_SPEED,
    {
        self.physical_states.velocity = decayed_velocity(
            self.physical_states.velocity,
            self.physical_states.friction,
            dt_ms,
        );
    }

    /// Wrap the horizontal position around the window edges.
    pub fn position_check(&mut self)
        requires
            -WINDOW_WIDTH <= old(self).position.x <= 2 * WINDOW_WIDTH,
        ensures
            final(self)@ == human_wrap(old(self)@),
            -STEP_LIMIT <= old(self)@.x <= WINDOW_WIDTH + STEP_LIMIT ==> 0 <= final(self).position.x
                <= WINDOW_WIDTH,
    {
        self.position = Vec2 { x: wrapped_x(self.position.x, true), y: self.position.y };
    }

    /// Alerted transition: an idle or strolling human starts running.
    pub fn rival_coming_state_changer(&mut self)
        ensures
            final(self)@ == (match old(self)@.state {
                HumanState::Idle | HumanState::Walking => HumanV {
                    state: HumanState::Running,
                    ..old(self)@
                },
                _ => old(self)@,
            }),
    {
        match self.current_state {
            HumanState::Idle | HumanState::Walking => {
                self.current_state = HumanState::Running;
            },
            _ => {},
        }
    }

    /// Disengage rule, run when the opposing signal is absent.
    pub fn state_changer(&mut self, rival_coming: Option<EnemyComing>)
        ensures
            final(self)@ == human_disengage(old(self)@, rival_coming),
    {
        match rival_coming {
            None => {
                if self.current_state == HumanState::AttackWaiting {
                    self.enemy_dir = None;
                    self.attack_target = None;
                    self.current_state = HumanState::Walking;
                }
            },
            _ => {},
        }
    }

    /// First opposing entity within reach, in the rival index's order.
    pub fn generate_target_to_attack(&self, rival_pos_list: &PositionMap) -> (r: Option<u32>)
        requires
            -POS_LIMIT <= self.position.x <= POS_LIMIT,
            self.size.x == UNIT_SIZE_X,
            pm_bounded(rival_pos_list@),
        ensures
            r == human_first_target(self@, rival_pos_list@),
    {
        let ghost rivals = rival_pos_list@;
        let n = rival_pos_list.len();
        let mut i: usize = 0;
        proof {
            assert(rivals.skip(0) =~= rivals);
        }
        while i < n
            invariant
                0 <= i <= n,
                n == rivals.len(),
                rivals == rival_pos_list@,
                pm_bounded(rivals),
                -POS_LIMIT <= self.position.x <= POS_LIMIT,
                self.size.x == UNIT_SIZE_X,
                human_first_target(self@, rivals) == human_first_target(self@, rivals.skip(i as int)),
            decreases n - i,
        {
            let (_rid, rpos) = rival_pos_list.entry_at(i);
            proof {
                assert(rivals.skip(i as int)[0] == rivals[i as int]);
                assert(rivals.skip(i as int).skip(1) =~= rivals.skip(i as int + 1));
            }
            let half = self.size.x / 2;
            if self.position.x + half > rpos.x - half {
                let (rid, _) = rival_pos_list.entry_at(i);
                return Some(rid);
            }
            i = i + 1;
        }
        None
    }

    /// Behaviour control for the current state: idle humans eventually
    /// stroll (direction picked by the uniform `draw`), strollers sit
    /// back down, runners chase the latched direction and acquire
    /// targets, attackers re-queue on cooldown.
    pub fn entity_behaviour_control(
        &mut self,
        dt_ms: i64,
        rival_pos_list: &PositionMap,
        draw: u64,
    )
        requires
            old(self)@.wf(),
            0 <= dt_ms <= MAX_TICK_MS,
            pm_bounded(rival_pos_list@),
        ensures
            final(self)@ == human_behaviour(old(self)@, dt_ms as int, rival_pos_list@, draw),
            -STEP_LIMIT <= final(self)@.x <= WINDOW_WIDTH + STEP_LIMIT,
            -HUMANS_WALK_SPEED <= final(self).physical_states.velocity <= HUMANS_WALK_SPEED,
            0 <= final(self).state_elapsed_ms <= TIMER_CAP_MS,
            0 <= final(self).attack_elapsed_ms <= TIMER_CAP_MS,
            final(self).physical_states.friction == old(self).physical_states.friction,
            final(self).fight_status.hp == old(self).fight_status.hp,
            final(self).id == old(self).id,
            match final(self)@.attack_target {
                Some((_, d)) => 0 <= d <= DAMAGE_LIMIT,
                None => true,
            },
            final(self)@.y == old(self)@.y,
            final(self)@.size_x == old(self)@.size_x,
            final(self)@.size_y == old(self)@.size_y,
            final(self)@.attack_damage == old(self)@.attack_damage,
            final(self)@.armor == old(self)@.armor,
            final(self)@.is_infant == old(self)@.is_infant,
    {
        match self.current_state {
            HumanState::Idle => {
                if self.state_elapsed_ms > IDLE_STATE_MS {
                    self.state_elapsed_ms = 0;
                    self.current_state = HumanState::Walking;
                    if draw < DRAW_HALF {
                        self.physical_states.velocity = HUMANS_IDLE_WALK_SPEED;
                    } else {
                        self.physical_states.velocity = -HUMANS_IDLE_WALK_SPEED;
                    }
                }
            },
            HumanState::Walking => {
                let v = self.physical_states.velocity;
                self.move_(Vec2 { x: v, y: 0 }, dt_ms);
                if self.state_elapsed_ms > WALK_STATE_MS {
                    self.state_elapsed_ms = 0;
                    self.current_state = HumanState::Idle;
                }
            },
            HumanState::Running => {
                self.physical_states.velocity = HUMANS_WALK_SPEED;
                let mut vx: i64 = self.physical_states.velocity;
                match self.enemy_dir {
                    Some(EnemyComing::Right) => {},
                    Some(EnemyComing::Left) => {
                        vx = -vx;
                    },
                    None => {
                        self.current_state = HumanState::Walking;
                        self.attack_target = None;
                        self.enemy_dir = None;
                    },
                }
                self.move_(Vec2 { x: vx, y: 0 }, dt_ms);
                if let Some(enemy_id) = self.generate_target_to_attack(rival_pos_list) {
                    self.current_state = HumanState::Attacking;
                    self.attack_target = Some((enemy_id, self.fight_status.attack_damage));
                }
            },
            HumanState::Attacking => {
                if self.attack_elapsed_ms > ATTACK_COOLDOWN_MS {
                    if let Some((tid, _queued)) = self.attack_target {
                        self.attack_target = Some((tid, self.fight_status.attack_damage));
                        self.attack_elapsed_ms = 0;
                    }
                } else {
                    self.current_state = HumanState::AttackWaiting;
                }
            },
            HumanState::AttackWaiting => {
                if self.attack_elapsed_ms > ATTACK_COOLDOWN_MS {
                    self.current_state = HumanState::Attacking;
                }
            },
        }
    }

    /// One full per-tick update: advance the clocks, latch the coming
    /// direction, disengage if the signal is gone, run behaviour
    /// control, decay velocity, wrap the position, and record the new
    /// position under this human's id.
    pub fn update(
        &mut self,
        dt_ms: i64,
        pos_list: &mut PositionMap,
        rival_coming: Option<EnemyComing>,
        rival_pos_list: &PositionMap,
        draw: u64,
    )
        requires
            old(self)@.wf(),
            0 <= dt_ms <= MAX_TICK_MS,
            old(pos_list).wf(),
            pm_bounded(rival_pos_list@),
        ensures
            final(self)@ == human_update_spec(
                old(self)@,
                dt_ms as int,
                rival_coming,
                rival_pos_list@,
                draw,
            ),
            final(self)@.wf(),
            final(self).id == old(self).id,
            final(pos_list)@ == spec_insert_pos(
                old(pos_list)@,
                old(self).id,
                Vec2V { x: final(self)@.x, y: final(self)@.y },
            ),
            final(pos_list).wf(),
            final(pos_list)@.len() == if crate::posmap::pm_contains(old(pos_list)@, old(self).id) {
                old(pos_list)@.len() as int
            } else {
                old(pos_list)@.len() + 1int
            },
            forall|x: u32|
                #[trigger] crate::posmap::pm_contains(final(pos_list)@, x) <==> (x == old(self).id
                    || crate::posmap::pm_contains(old(pos_list)@, x)),
            pm_bounded(old(pos_list)@) ==> pm_bounded(final(pos_list)@),
    {
        self.state_elapsed_ms = saturating_elapse(self.state_elapsed_ms, dt_ms);
        self.attack_elapsed_ms = saturating_elapse(self.attack_elapsed_ms, dt_ms);
        let ghost h1 = human_elapse(old(self)@, dt_ms as int);
        proof {
            assert(self@ == h1);
        }
        if let Some(dir) = rival_coming {
            if self.enemy_dir.is_none() {
                self.enemy_dir = Some(dir);
            }
            self.rival_coming_state_changer();
        }
        let ghost h2 = human_latch(h1, rival_coming);
        proof {
            assert(self@ == h2);
        }
        self.state_changer(rival_coming);
        let ghost h3 = human_disengage(h2, rival_coming);
        self.entity_behaviour_control(dt_ms, rival_pos_list, draw);
        let ghost h4 = human_behaviour(h3, dt_ms as int, rival_pos_list@, draw);
        proof {
            assert(self@ == h4);
        }
        self.velocity_update(dt_ms);
        self.position_check();
        pos_list.insert(self.id, self.position);
    }

    /// The queued attack this human delivers this tick, if its cooldown
    /// has already elapsed.
    pub fn get_attack_target(&self) -> (r: Option<(u32, i64)>)
        ensures
            self.attack_elapsed_ms > ATTACK_COOLDOWN_MS ==> r == self.attack_target,
            self.attack_elapsed_ms <= ATTACK_COOLDOWN_MS ==> r == None::<(u32, i64)>,
            match r {
                Some((t, d)) => human_attack_output(self@) == Some((t, d as int)),
                None => human_attack_output(self@) == None::<(u32, int)>,
            },
    {
        if self.attack_elapsed_ms > ATTACK_COOLDOWN_MS {
            return self.attack_target;
        }
        None
    }
}

} // verus!

use castle::enemy::Enemy;
use castle::human::{Human, HumanState};
use castle::motion::{EnemyComing, Vec2};
use castle::posmap::PositionMap;
use castle::settings::{
    ENEMY_SPAWN_X, GROUND_POS_Y, HUMANS_IDLE_WALK_SPEED, HUMANS_MAX_HP, HUMANS_WALK_SPEED,
    HUMAN_SPAWN_X, UNIT_ATTACK_DAMAGE,
};

#[test]
fn new_human_is_idle_and_unhurt() {
    let h = Human::new(7);
    assert_eq!(h.get_id(), 7);
    assert_eq!(h.get_hp(), HUMANS_MAX_HP);
    assert_eq!(h.current_state(), HumanState::Idle);
    assert_eq!(h.get_position().x, HUMAN_SPAWN_X);
    assert_eq!(h.get_position().y, GROUND_POS_Y);
    assert!(h.attack_target().is_none());
    assert!(h.rival_dir().is_none());
}

#[test]
fn new_enemy_spawns_right_of_window() {
    let e = Enemy::new(3);
    assert_eq!(e.get_id(), 3);
    assert_eq!(e.get_hp(), HUMANS_MAX_HP);
    assert_eq!(e.get_position().x, ENEMY_SPAWN_X);
}

#[test]
fn idle_human_starts_walking_after_three_seconds_low_draw() {
    // A uniform draw of 0.3 (below the half-way mark) picks the
    // positive idle-walk velocity.
    let mut h = Human::new(0);
    h.state_elapsed_ms = 3500;
    let rivals = PositionMap::new();
    h.entity_behaviour_control(16, &rivals, 300);
    assert_eq!(h.current_state(), HumanState::Walking);
    assert_eq!(h.physical_states.velocity, HUMANS_IDLE_WALK_SPEED);
    assert_eq!(
        HUMANS_IDLE_WALK_SPEED,
        HUMANS_WALK_SPEED * castle::settings::HUMANS_IDLE_WALK_SPEED_FACTOR / castle::settings::MILLI
    );
    assert_eq!(h.state_elapsed_ms, 0);
}

#[test]
fn idle_human_starts_walking_after_three_seconds_high_draw() {
    let mut h = Human::new(0);
    h.state_elapsed_ms = 3500;
    let rivals = PositionMap::new();
    h.entity_behaviour_control(16, &rivals, 700);
    assert_eq!(h.current_state(), HumanState::Walking);
    assert_eq!(h.physical_states.velocity, -HUMANS_IDLE_WALK_SPEED);
}

#[test]
fn idle_human_stays_idle_before_three_seconds() {
    let mut h = Human::new(0);
    h.state_elapsed_ms = 2999;
    let rivals = PositionMap::new();
    h.entity_behaviour_control(16, &rivals, 300);
    assert_eq!(h.current_state(), HumanState::Idle);
    assert_eq!(h.physical_states.velocity, 0);
}

#[test]
fn walking_human_moves_by_velocity_and_delta_time() {
    let mut h = Human::new(0);
    h.current_state = HumanState::Walking;
    h.physical_states.velocity = 1500;
    let x0 = h.get_position().x;
    let rivals = PositionMap::new();
    h.entity_behaviour_control(16, &rivals, 0);
    // 1500 * 16 ms * 60 / 1000 = 1440 thousandths of a pixel.
    assert_eq!(h.get_position().x, x0 + 1440);
}

#[test]
fn running_human_without_signal_goes_back_to_walking() {
    // Running with no latched direction, no signal, and no rival in
    // reach: back to Walking with target and direction cleared.
    let mut h = Human::new(0);
    h.current_state = HumanState::Running;
    h.enemy_dir = None;
    h.attack_target = Some((5, UNIT_ATTACK_DAMAGE));
    let mut pos = PositionMap::new();
    // One rival exists, but well beyond even the post-move reach.
    let mut rivals = PositionMap::new();
    rivals.insert(9, Vec2 { x: 1_000_000, y: GROUND_POS_Y });
    h.update(16, &mut pos, None, &rivals, 0);
    assert_eq!(h.current_state(), HumanState::Walking);
    assert!(h.attack_target().is_none());
    assert!(h.rival_dir().is_none());
}

#[test]
fn running_human_acquires_rival_in_reach() {
    let mut h = Human::new(0);
    h.current_state = HumanState::Running;
    h.enemy_dir = Some(EnemyComing::Right);
    h.attack_elapsed_ms = 2000;
    let mut rivals = PositionMap::new();
    // Within the half-width reach of the human.
    rivals.insert(9, Vec2 { x: h.get_position().x + 10_000, y: GROUND_POS_Y });
    let mut pos = PositionMap::new();
    h.update(16, &mut pos, Some(EnemyComing::Right), &rivals, 0);
    assert_eq!(h.current_state(), HumanState::Attacking);
    assert_eq!(h.attack_target(), Some((9, UNIT_ATTACK_DAMAGE)));
}

#[test]
fn idle_human_latches_signal_and_runs() {
    let mut h = Human::new(0);
    let mut pos = PositionMap::new();
    let rivals = PositionMap::new();
    h.update(16, &mut pos, Some(EnemyComing::Right), &rivals, 0);
    assert_eq!(h.current_state(), HumanState::Running);
    assert_eq!(h.rival_dir(), Some(EnemyComing::Right));
}

#[test]
fn velocity_decays_toward_zero() {
    let mut h = Human::new(0);
    h.physical_states.velocity = 1500;
    h.velocity_update(1000);
    // 1500 - 1500 * 200 * 1000 / 1_000_000 = 1200.
    assert_eq!(h.physical_states.velocity, 1200);
    h.physical_states.velocity = -1500;
    h.velocity_update(1000);
    assert_eq!(h.physical_states.velocity, -1200);
}

#[test]
fn human_wraps_on_both_window_edges() {
    // x = -5 px with a 1280 px window wraps to 1275 px.
    let mut h = Human::new(0);
    h.position = Vec2 { x: -5_000, y: GROUND_POS_Y };
    h.position_check();
    assert_eq!(h.get_position().x, 1_275_000);
    // x = 1285 px wraps to 5 px.
    h.position = Vec2 { x: 1_285_000, y: GROUND_POS_Y };
    h.position_check();
    assert_eq!(h.get_position().x, 5_000);
}

#[test]
fn enemy_does_not_wrap_on_the_upper_edge() {
    let mut e = Enemy::new(0);
    e.position = Vec2 { x: 1_285_000, y: GROUND_POS_Y };
    e.position_check();
    assert_eq!(e.get_position().x, 1_285_000);
    e.position = Vec2 { x: -5_000, y: GROUND_POS_Y };
    e.position_check();
    assert_eq!(e.get_position().x, 1_275_000);
}

#[test]
fn enemy_runs_toward_the_window_midpoint() {
    let mut e = Enemy::new(0);
    let rivals = PositionMap::new();
    let x0 = e.get_position().x;
    e.entity_behaviour_control(16, &rivals);
    // Past the midpoint, so it moves left: 1000 * 16 * 60 / 1000 = 960.
    assert_eq!(e.get_position().x, x0 - 960);

    let mut e2 = Enemy::new(1);
    e2.position = Vec2 { x: 100_000, y: GROUND_POS_Y };
    e2.entity_behaviour_control(16, &rivals);
    assert_eq!(e2.get_position().x, 100_960);
}

#[test]
fn enemy_targets_base_building_when_no_human_in_range() {
    // Within reach of the base building and past its cooldown, with no
    // human anywhere: the attack targets building id 100.
    let mut e = Enemy::new(0);
    e.position = Vec2 { x: 100_000, y: GROUND_POS_Y };
    e.attack_elapsed_ms = 2000;
    e.update_building_pos_list(vec![Vec2 { x: 70_000, y: GROUND_POS_Y }]);
    let rivals = PositionMap::new();
    assert_eq!(e.generate_target_to_attack(&rivals), Some(100));
}

#[test]
fn enemy_target_acquisition_is_gated_on_cooldown() {
    let mut e = Enemy::new(0);
    e.position = Vec2 { x: 100_000, y: GROUND_POS_Y };
    e.attack_elapsed_ms = 1000;
    e.update_building_pos_list(vec![Vec2 { x: 70_000, y: GROUND_POS_Y }]);
    let rivals = PositionMap::new();
    assert_eq!(e.generate_target_to_attack(&rivals), None);
}

#[test]
fn enemy_prefers_humans_over_buildings() {
    let mut e = Enemy::new(0);
    e.position = Vec2 { x: 100_000, y: GROUND_POS_Y };
    e.attack_elapsed_ms = 2000;
    e.update_building_pos_list(vec![Vec2 { x: 70_000, y: GROUND_POS_Y }]);
    let mut rivals = PositionMap::new();
    rivals.insert(4, Vec2 { x: 95_000, y: GROUND_POS_Y });
    assert_eq!(e.generate_target_to_attack(&rivals), Some(4));
}

#[test]
fn attack_is_handed_out_only_after_the_cooldown() {
    let mut h = Human::new(0);
    h.attack_target = Some((2, UNIT_ATTACK_DAMAGE));
    h.attack_elapsed_ms = 1400;
    assert_eq!(h.get_attack_target(), None);
    h.attack_elapsed_ms = 1600;
    assert_eq!(h.get_attack_target(), Some((2, UNIT_ATTACK_DAMAGE)));
}

#[test]
fn walking_human_sits_back_down_after_a_second_and_a_half() {
    let mut h = Human::new(0);
    h.current_state = HumanState::Walking;
    h.state_elapsed_ms = 1400;
    let rivals = PositionMap::new();
    h.entity_behaviour_control(16, &rivals, 0);
    assert_eq!(h.current_state(), HumanState::Walking);
    let mut pos = PositionMap::new();
    h.update(200, &mut pos, None, &rivals, 0);
    assert_eq!(h.current_state(), HumanState::Idle);
    assert_eq!(h.state_timer(), 0);
}

#[test]
fn attacker_waits_out_the_cooldown_and_returns_to_attacking() {
    let mut h = Human::new(0);
    h.current_state = HumanState::Attacking;
    h.attack_target = Some((3, UNIT_ATTACK_DAMAGE));
    h.attack_elapsed_ms = 100;
    let rivals = PositionMap::new();
    // Cooldown not yet elapsed: fall through to waiting.
    h.entity_behaviour_control(16, &rivals, 0);
    assert_eq!(h.current_state(), HumanState::AttackWaiting);
    // Once it elapses, return to attacking.
    h.attack_elapsed_ms = 1600;
    h.entity_behaviour_control(16, &rivals, 0);
    assert_eq!(h.current_state(), HumanState::Attacking);
}

#[test]
fn attacking_on_elapsed_cooldown_requeues_and_restarts() {
    let mut h = Human::new(0);
    h.current_state = HumanState::Attacking;
    h.attack_target = Some((3, 1));
    h.attack_elapsed_ms = 1600;
    let rivals = PositionMap::new();
    h.entity_behaviour_control(16, &rivals, 0);
    // The queued damage is refreshed from the base damage and the
    // cooldown clock restarts.
    assert_eq!(h.attack_target(), Some((3, UNIT_ATTACK_DAMAGE)));
    assert_eq!(h.attack_timer(), 0);
    assert_eq!(h.current_state(), HumanState::Attacking);
}

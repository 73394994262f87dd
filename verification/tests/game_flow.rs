use castle::events::AttackInfo;
use castle::game::Game;
use castle::human::HumanState;
use castle::settings::{
    BUILDING_BASE_MAX_HP, HUMANS_IDLE_WALK_SPEED, HUMANS_MAX_HP, UNIT_ATTACK_DAMAGE,
};

#[test]
fn new_game_seeds_one_of_each() {
    let g = Game::new();
    assert_eq!(g.humans.len(), 1);
    assert_eq!(g.enemies.len(), 1);
    assert_eq!(g.buildings.len(), 1);
    assert_eq!(g.humans_pos_list.len(), 1);
    assert_eq!(g.enemies_pos_list.len(), 1);
    assert_eq!(g.buildings[0].get_hp(), BUILDING_BASE_MAX_HP);
    assert_eq!(g.buildings[0].get_id(), 100);
    assert!(!g.game_over());
    assert!(!g.is_paused);
}

#[test]
fn resolving_empty_queues_changes_no_hit_points() {
    // With nothing queued and nobody in reach, a tick moves entities
    // but leaves every hit point alone, twice over.
    let mut g = Game::new();
    g.tick(16);
    assert_eq!(g.humans[0].get_hp(), HUMANS_MAX_HP);
    assert_eq!(g.enemies[0].get_hp(), HUMANS_MAX_HP);
    assert_eq!(g.buildings[0].get_hp(), BUILDING_BASE_MAX_HP);
    g.tick(16);
    assert_eq!(g.humans[0].get_hp(), HUMANS_MAX_HP);
    assert_eq!(g.enemies[0].get_hp(), HUMANS_MAX_HP);
    assert_eq!(g.buildings[0].get_hp(), BUILDING_BASE_MAX_HP);
}

#[test]
fn two_queued_events_for_one_enemy_apply_both_in_one_tick() {
    let mut g = Game::new();
    let id = g.enemies[0].get_id();
    g.attacked_enemy_ids.insert(id);
    g.attacked_enemy_list.push(AttackInfo { attacked_id: id, dmg_taken: UNIT_ATTACK_DAMAGE });
    g.attacked_enemy_list.push(AttackInfo { attacked_id: id, dmg_taken: UNIT_ATTACK_DAMAGE });
    g.tick(16);
    assert_eq!(g.enemies[0].get_hp(), HUMANS_MAX_HP - 2 * UNIT_ATTACK_DAMAGE);
}

#[test]
fn zero_queued_events_apply_none() {
    let mut g = Game::new();
    g.tick(16);
    assert_eq!(g.enemies[0].get_hp(), HUMANS_MAX_HP);
}

#[test]
fn queued_building_damage_is_applied_before_the_clear() {
    let mut g = Game::new();
    g.attacked_human_ids.insert(100);
    g.attacked_human_list.push(AttackInfo { attacked_id: 100, dmg_taken: 50_000 });
    g.tick(16);
    assert_eq!(g.buildings[0].get_hp(), BUILDING_BASE_MAX_HP - 50_000);
    assert_eq!(g.attacked_human_list.len(), 0);
    assert_eq!(g.attacked_human_ids.len(), 0);
}

#[test]
fn base_building_at_zero_ends_the_game_on_the_next_tick() {
    let mut g = Game::new();
    g.buildings[0].set_hp(0);
    assert!(!g.game_over());
    g.tick(16);
    assert!(g.game_over());
}

#[test]
fn a_finished_game_ticks_to_nothing() {
    let mut g = Game::new();
    g.buildings[0].set_hp(0);
    g.tick(16);
    assert!(g.game_over());
    let x = g.humans[0].get_position().x;
    g.tick(16);
    assert_eq!(g.humans[0].get_position().x, x);
}

#[test]
fn a_paused_game_ticks_to_nothing() {
    let mut g = Game::new();
    g.toggle_pause();
    let hx = g.humans[0].get_position().x;
    let ex = g.enemies[0].get_position().x;
    g.tick(100);
    assert_eq!(g.humans[0].get_position().x, hx);
    assert_eq!(g.enemies[0].get_position().x, ex);
    g.toggle_pause();
    g.tick(100);
    assert_ne!(g.enemies[0].get_position().x, ex);
}

#[test]
fn dead_entities_leave_roster_and_position_map_together() {
    let mut g = Game::new();
    g.enemies[0].set_hp(0);
    g.tick(16);
    assert_eq!(g.enemies.len(), 0);
    assert_eq!(g.enemies_pos_list.len(), 0);
    assert_eq!(g.humans.len(), 1);
    assert_eq!(g.humans_pos_list.len(), 1);
}

#[test]
fn idle_walk_direction_comes_from_the_uniform_draw() {
    // With no opposing signal the seeded human trips the idle timer;
    // whatever the thread's generator returned, the resulting stroll
    // speed is the idle-walk speed, one way or the other.
    let mut g = Game::new();
    g.enemy_coming = None;
    g.humans[0].state_elapsed_ms = 3500;
    g.tick(16);
    assert_eq!(g.humans[0].current_state(), HumanState::Walking);
    let v = g.humans[0].physical_states.velocity;
    assert!(v == HUMANS_IDLE_WALK_SPEED || v == -HUMANS_IDLE_WALK_SPEED);
}

#[test]
fn rosters_and_position_maps_stay_in_step_over_a_long_run() {
    let mut g = Game::new();
    let mut i = 0;
    while i < 300 && !g.game_over() {
        g.tick(100);
        assert_eq!(g.humans_pos_list.len(), g.humans.len());
        assert_eq!(g.enemies_pos_list.len(), g.enemies.len());
        for h in &g.humans {
            assert!(0 <= h.get_hp() && h.get_hp() <= HUMANS_MAX_HP);
        }
        for e in &g.enemies {
            assert!(0 <= e.get_hp() && e.get_hp() <= HUMANS_MAX_HP);
        }
        i += 1;
    }
    // By now the two sides have met: someone has taken damage.
    let enemy_hurt = g.enemies.is_empty() || g.enemies[0].get_hp() < HUMANS_MAX_HP;
    let human_hurt = g.humans.is_empty() || g.humans[0].get_hp() < HUMANS_MAX_HP;
    assert!(enemy_hurt || human_hurt);
}

#[test]
fn event_without_pending_id_is_not_applied() {
    // An event sitting in the queue whose target id is not in the
    // pending-id set is not consumed; the sweep's unconditional clear
    // then discards it.
    let mut g = Game::new();
    let id = g.enemies[0].get_id();
    g.attacked_enemy_list.push(AttackInfo { attacked_id: id, dmg_taken: UNIT_ATTACK_DAMAGE });
    g.tick(16);
    assert_eq!(g.enemies[0].get_hp(), HUMANS_MAX_HP);
    assert_eq!(g.attacked_enemy_list.len(), 0);
}

#[test]
fn enemy_side_queue_is_cleared_unconditionally_after_its_sweep() {
    // Only one wave of events per tick is honoured per roster: stale
    // enemy-side entries are gone after the tick, consumed or not.
    let mut g = Game::new();
    g.attacked_enemy_ids.insert(77);
    g.attacked_enemy_list.push(AttackInfo { attacked_id: 77, dmg_taken: UNIT_ATTACK_DAMAGE });
    g.tick(16);
    assert_eq!(g.attacked_enemy_list.len(), 0);
    assert_eq!(g.attacked_enemy_ids.len(), 0);
}

#[test]
fn pending_id_without_events_is_a_no_op() {
    // An id in the pending set with no matching queued event must be a
    // no-op, not a fault.
    let mut g = Game::new();
    let id = g.enemies[0].get_id();
    g.attacked_enemy_ids.insert(id);
    g.tick(16);
    assert_eq!(g.enemies[0].get_hp(), HUMANS_MAX_HP);
    assert_eq!(g.enemies.len(), 1);
}

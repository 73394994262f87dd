use castle::building::{Building, BuildingType};
use castle::enemy::Enemy;
use castle::human::Human;
use castle::settings::{BUILDING_BASE_MAX_HP, BUILDING_OTHERS_MAX_HP, HUMANS_MAX_HP};
use castle::ui::hp_bar_fill;

#[test]
fn set_hp_clamps_low_and_high_for_humans() {
    let mut h = Human::new(0);
    h.set_hp(-5_000);
    assert_eq!(h.get_hp(), 0);
    h.set_hp(250_000);
    assert_eq!(h.get_hp(), HUMANS_MAX_HP);
    h.set_hp(40_000);
    assert_eq!(h.get_hp(), 40_000);
}

#[test]
fn set_hp_clamps_for_enemies() {
    let mut e = Enemy::new(0);
    e.set_hp(-1);
    assert_eq!(e.get_hp(), 0);
    e.set_hp(HUMANS_MAX_HP + 1);
    assert_eq!(e.get_hp(), HUMANS_MAX_HP);
}

#[test]
fn set_hp_clamps_to_each_building_kind_maximum() {
    let mut base = Building::new(BuildingType::Base);
    base.set_hp(BUILDING_BASE_MAX_HP + 100_000);
    assert_eq!(base.get_hp(), BUILDING_BASE_MAX_HP);
    base.set_hp(-3);
    assert_eq!(base.get_hp(), 0);

    let mut other = Building::new(BuildingType::Others);
    assert_eq!(other.get_hp(), BUILDING_OTHERS_MAX_HP);
    other.set_hp(BUILDING_OTHERS_MAX_HP + 1);
    assert_eq!(other.get_hp(), BUILDING_OTHERS_MAX_HP);
}

#[test]
fn queued_damage_is_subtracted_in_full_and_clamped() {
    // A human at 100 hp takes a queued 20-damage event, then a further
    // 90-damage event: 80 hp, then 0, never negative.
    let mut h = Human::new(0);
    assert_eq!(h.get_hp(), 100_000);
    h.apply_damage_list(&vec![20_000]);
    assert_eq!(h.get_hp(), 80_000);
    h.apply_damage_list(&vec![90_000]);
    assert_eq!(h.get_hp(), 0);
}

#[test]
fn two_events_for_one_target_apply_both() {
    let mut e = Enemy::new(0);
    e.apply_damage_list(&vec![20_000, 20_000]);
    assert_eq!(e.get_hp(), 60_000);
}

#[test]
fn empty_damage_list_is_a_no_op() {
    let mut e = Enemy::new(0);
    let none: Vec<i64> = Vec::new();
    e.apply_damage_list(&none);
    assert_eq!(e.get_hp(), HUMANS_MAX_HP);
}

#[test]
fn hp_bar_fill_is_proportional() {
    assert_eq!(hp_bar_fill(60_000, 50_000, 100_000), 30_000);
    assert_eq!(hp_bar_fill(100_000, 500_000, 500_000), 100_000);
    assert_eq!(hp_bar_fill(100_000, 0, 500_000), 0);
    assert_eq!(hp_bar_fill(60_000, 100_000, 100_000), 60_000);
}

#[test]
fn texture_manager_loads_nothing() {
    let mut t = castle::texture_manager::TextureManager::new();
    assert_eq!(t.entry_count(), 0);
    t.load_target();
    assert_eq!(t.entry_count(), 0);
}

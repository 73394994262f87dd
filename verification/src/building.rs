//! The defended buildings — the base among them decides the game — and
//! the strip of ground they stand on.

use vstd::prelude::*;
use crate::clamp_hp;
use crate::fight::{apply_damage_seq, dmg_views, EntityFightStatus};
use crate::motion::{Vec2, Vec2V};
use crate::settings::{
    BUILDING_ATTACK_DAMAGE, BUILDING_BASE_MAX_HP, BUILDING_ID_BIAS, BUILDING_OTHERS_MAX_HP,
    BUILDING_POS_X, BUILDING_SIZE, DAMAGE_LIMIT, GROUND_HEIGHT, GROUND_POS_Y, POS_LIMIT,
    WINDOW_WIDTH,
};

verus! {

/// What a building is for: the base, whose fall ends the game, or any
/// other structure.
#[derive(Clone, Copy, PartialEq, Eq, Structural, Debug)]
pub enum BuildingType {
    Base,
    Others,
}

/// Hit-point ceiling of a building of the given type.
pub open spec fn building_max_hp(t: BuildingType) -> int {
    match t {
        BuildingType::Base => BUILDING_BASE_MAX_HP as int,
        BuildingType::Others => BUILDING_OTHERS_MAX_HP as int,
    }
}

/// A stationary defended structure.  Buildings have no behavioural
/// state; they only take damage.
#[derive(Clone, Copy, Debug)]
pub struct Building {
    pub position: Vec2,
    pub size: Vec2,
    pub fight_status: EntityFightStatus,
    pub building_type: BuildingType,
    pub id: u32,
}

/// Mathematical view of a building.
#[verifier::ext_equal]
pub ghost struct BuildingV {
    pub x: int,
    pub y: int,
    pub size_x: int,
    pub size_y: int,
    pub attack_damage: int,
    pub armor: int,
    pub is_infant: Option<bool>,
    pub hp: int,
    pub building_type: BuildingType,
    pub id: u32,
}

impl View for Building {
    type V = BuildingV;

    open spec fn view(&self) -> BuildingV {
        BuildingV {
            x: self.position.x as int,
            y: self.position.y as int,
            size_x: self.size.x as int,
            size_y: self.size.y as int,
            attack_damage: self.fight_status.attack_damage as int,
            armor: self.fight_status.armor as int,
            is_infant: self.fight_status.is_infant,
            hp: self.fight_status.hp as int,
            building_type: self.building_type,
            id: self.id,
        }
    }
}

impl BuildingV {
    /// Well-formedness kept across every tick.
    pub open spec fn wf(self) -> bool {
        &&& -POS_LIMIT <= self.x <= POS_LIMIT
        &&& -POS_LIMIT <= self.y <= POS_LIMIT
        &&& 0 <= self.size_x <= POS_LIMIT
        &&& 0 <= self.size_y <= POS_LIMIT
        &&& 0 <= self.hp <= building_max_hp(self.building_type)
        &&& 0 <= self.attack_damage <= DAMAGE_LIMIT
    }
}

impl Building {
    /// A fresh building of the given type, at full hit points for its
    /// kind, standing at the left edge of the world.
    pub fn new(building_type: BuildingType) -> (r: Building)
        ensures
            r@ == (BuildingV {
                x: BUILDING_POS_X as int,
                y: GROUND_POS_Y as int,
                size_x: BUILDING_SIZE as int,
                size_y: BUILDING_SIZE as int,
                attack_damage: BUILDING_ATTACK_DAMAGE as int,
                armor: 0,
                is_infant: None,
                hp: building_max_hp(building_type),
                building_type,
                id: BUILDING_ID_BIAS,
            }),
            r@.wf(),
    {
        let hp: i64 = match building_type {
            BuildingType::Base => BUILDING_BASE_MAX_HP,
            BuildingType::Others => BUILDING_OTHERS_MAX_HP,
        };
        Building {
            position: Vec2 { x: BUILDING_POS_X, y: GROUND_POS_Y },
            size: Vec2 { x: BUILDING_SIZE, y: BUILDING_SIZE },
            fight_status: EntityFightStatus {
                attack_damage: BUILDING_ATTACK_DAMAGE,
                armor: 0,
                is_infant: None,
                hp,
            },
            building_type,
            id: BUILDING_ID_BIAS,
        }
    }

    pub fn get_position(&self) -> (r: Vec2)
        ensures
            r == self.position,
    {
        self.position
    }

    pub fn set_position(&mut self, pos: Vec2)
        requires
            -POS_LIMIT <= pos.x <= POS_LIMIT,
            -POS_LIMIT <= pos.y <= POS_LIMIT,
        ensures
            final(self)@ == (BuildingV { x: pos.x as int, y: pos.y as int, ..old(self)@ }),
    {
        self.position = pos;
    }

    pub fn resize(&mut self, size: Vec2)
        requires
            0 <= size.x <= POS_LIMIT,
            0 <= size.y <= POS_LIMIT,
        ensures
            final(self)@ == (BuildingV {
                size_x: size.x as int,
                size_y: size.y as int,
                ..old(self)@
            }),
    {
        self.size = size;
    }

    pub fn get_size(&self) -> (r: Vec2)
        ensures
            r == self.size,
    {
        self.size
    }

    pub fn get_id(&self) -> (r: u32)
        ensures
            r == self.id,
    {
        self.id
    }

    pub fn get_hp(&self) -> (r: i64)
        ensures
            r == self.fight_status.hp,
    {
        self.fight_status.hp
    }

    /// Buildings take the building-sized HP bar.
    pub fn is_human(&self) -> (r: bool)
        ensures
            r == false,
    {
        false
    }

    /// Hit points as the HP-bar drawing reads them.
    pub fn geoinfo_get_hp(&self) -> (r: i64)
        ensures
            r == self.fight_status.hp,
    {
        self.fight_status.hp
    }

    pub fn fight_status(&self) -> (r: EntityFightStatus)
        ensures
            r == self.fight_status,
    {
        self.fight_status
    }

    /// The hit-point ceiling for this building's type.
    pub fn max_hp(&self) -> (r: i64)
        ensures
            r == building_max_hp(self.building_type),
    {
        match self.building_type {
            BuildingType::Base => BUILDING_BASE_MAX_HP,
            BuildingType::Others => BUILDING_OTHERS_MAX_HP,
        }
    }

    /// Write new hit points, clamped into `[0, max]` for this
    /// building's type.
    pub fn set_hp(&mut self, new_hp: i64)
        ensures
            final(self)@ == (BuildingV {
                hp: clamp_hp(new_hp as int, building_max_hp(old(self).building_type)),
                ..old(self)@
            }),
            0 <= final(self).fight_status.hp <= building_max_hp(old(self).building_type),
    {
        let max_hp = self.max_hp();
        if new_hp < 0 {
            self.fight_status.hp = 0;
        } else if new_hp > max_hp {
            self.fight_status.hp = max_hp;
        } else {
            self.fight_status.hp = new_hp;
        }
    }

    /// Apply a list of queued damage amounts in order, each through the
    /// clamped hit-point write.
    pub fn apply_damage_list(&mut self, dmgs: &Vec<i64>)
        requires
            0 <= old(self).fight_status.hp <= building_max_hp(old(self).building_type),
            forall|k: int| 0 <= k < dmgs@.len() ==> 0 <= #[trigger] dmgs@[k] <= DAMAGE_LIMIT,
        ensures
            final(self)@ == (BuildingV {
                hp: apply_damage_seq(
                    old(self)@.hp,
                    dmg_views(dmgs@),
                    building_max_hp(old(self).building_type),
                ),
                ..old(self)@
            }),
            0 <= final(self).fight_status.hp <= building_max_hp(old(self).building_type),
    {
        let max_hp = self.max_hp();
        let new_hp = crate::fight::apply_damage_core(self.fight_status.hp, dmgs, max_hp);
        self.fight_status.hp = new_hp;
    }
}

/// The strip of ground every entity stands on.  Pure geometry: it takes
/// no part in the simulation.
pub struct BaseGround {
    pub position: Vec2,
    pub size: Vec2,
}

impl BaseGround {
    /// The ground: a window-wide strip at the ground line.
    pub fn new() -> (r: BaseGround)
        ensures
            r.position.x == 0,
            r.position.y == GROUND_POS_Y,
            r.size.x == WINDOW_WIDTH,
            r.size.y == GROUND_HEIGHT,
    {
        BaseGround {
            position: Vec2 { x: 0, y: GROUND_POS_Y },
            size: Vec2 { x: WINDOW_WIDTH, y: GROUND_HEIGHT },
        }
    }
}

} // verus!

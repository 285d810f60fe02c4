//! Configuration tables that the rules read: characters, emojis, skills,
//! buffs, and which buff and skill ids belong to which rule.

use std::collections::HashMap;
use vstd::prelude::*;

verus! {

/// Skills of a character of which a player may pick at most one.
pub struct SkillGroup {
    pub group: Vec<u32>,
}

pub struct CharacterTemp {
    pub id: u32,
    /// How many skills a player must pick before getting ready.
    pub usable_skill_count: u8,
    pub skills: Vec<SkillGroup>,
}

#[derive(Clone, Copy, Debug, PartialEq, Eq, Structural)]
pub struct EmojiTemp {
    pub id: u32,
    /// Non-zero when the emoji must be unlocked first.
    pub condition: u32,
    /// Non-zero when only this character may send the emoji.
    pub cter_id: u32,
}

#[derive(Clone, Copy, Debug, PartialEq, Eq, Structural)]
pub struct SkillTemp {
    pub id: u32,
    pub skill_judge: u16,
    pub par2: u32,
}

#[derive(Clone, Copy, Debug, PartialEq, Eq, Structural)]
pub struct BuffTemp {
    pub id: u32,
    pub par1: u32,
}

/// Which buff, skill and judge ids each battle rule applies to.
pub struct BuffTypes {
    pub traps: Vec<u32>,
    pub trap_add_buff: Vec<u32>,
    pub trap_skill_damage: Vec<u32>,
    pub can_not_moved: u32,
    pub lock_skills: Vec<u32>,
    pub change_skill: Vec<u32>,
    pub attacked_add_energy: Vec<u32>,
    pub locked: u32,
    pub transform_buff: Vec<u32>,
    pub defense_near_move_skill_damage: Vec<u32>,
    /// Offsets of the cells that count as near a cell.
    pub trigger_scope_near: Vec<isize>,
    pub water_turret: u32,
    pub limit_turn_times: u16,
    pub limit_round_times: u16,
}

pub struct Templates {
    pub characters: HashMap<u32, CharacterTemp>,
    pub emojis: HashMap<u32, EmojiTemp>,
    pub skills: HashMap<u32, SkillTemp>,
    pub buffs: HashMap<u32, BuffTemp>,
    pub buff_types: BuffTypes,
}

impl CharacterTemp {
    /// The skill groups, each as the sequence of its skill ids.
    pub open spec fn groups(self) -> Seq<Seq<u32>> {
        self.skills@.map_values(|g: SkillGroup| g.group@)
    }
}

} // verus!

//! The battle state: the board, the characters on it and their buffs and
//! skills, and the order in which players act.

use crate::action::{EffectPt, EffectType, TargetPt, TargetPtView};
use crate::protocol::Refusal;
use crate::room::{lemma_map_values_insert, lemma_map_values_remove};
use crate::templates::{BuffTemp, SkillTemp};
use std::collections::HashMap;
use vstd::prelude::*;

verus! {

broadcast use vstd::std_specs::hash::group_hash_axioms;

#[derive(Clone, Copy, Debug, PartialEq, Eq, Structural)]
pub struct Buff {
    pub id: u32,
    pub buff_temp: BuffTemp,
    /// The player whose action put the buff here.
    pub from_user: Option<u32>,
    /// The skill that put the buff here.
    pub from_skill: Option<u32>,
    /// The turn in which the buff was put here.
    pub turn_index: Option<usize>,
}

impl Buff {
    pub fn new(buff_temp: BuffTemp, turn_index: Option<usize>, from_user: Option<u32>, from_skill: Option<u32>) -> (b: Buff)
        ensures
            b == (Buff { id: buff_temp.id, buff_temp, from_user, from_skill, turn_index }),
    {
        Buff { id: buff_temp.id, buff_temp, from_user, from_skill, turn_index }
    }
}

#[derive(Clone, Copy, Debug, PartialEq, Eq, Structural)]
pub struct Skill {
    pub id: u32,
    pub skill_temp: SkillTemp,
    pub is_active: bool,
}

impl Skill {
    /// A fresh, inactive skill of template `temp`.
    pub fn from_temp(temp: SkillTemp) -> (s: Skill)
        ensures
            s == (Skill { id: temp.id, skill_temp: temp, is_active: false }),
    {
        Skill { id: temp.id, skill_temp: temp, is_active: false }
    }
}

pub struct MapCell {
    pub index: usize,
    /// The player standing on the cell, or 0.
    pub user_id: u32,
    pub buffs: HashMap<u32, Buff>,
}

pub struct TileMap {
    pub map_cells: Vec<MapCell>,
}

#[derive(Clone, Copy, Debug, PartialEq, Eq, Structural)]
pub struct BaseAttr {
    pub user_id: u32,
    pub hp: i16,
    pub max_energy: u8,
    pub energy: u8,
}

pub struct BattleBuffs {
    pub buffs: HashMap<u32, Buff>,
}

pub struct FlowData {
    /// Skills whose use is limited, used this turn.
    pub turn_limit_skills: Vec<u32>,
}

pub struct BattleCharacter {
    pub base_attr: BaseAttr,
    /// The cell the character stands on.
    pub map_cell_index: usize,
    /// Whether the player has chosen the starting cell.
    pub index_chosen: bool,
    /// Whether the character is in a transformed shape.
    pub transformed: bool,
    pub battle_buffs: BattleBuffs,
    pub skills: HashMap<u32, Skill>,
    pub flow_data: FlowData,
}

#[verifier::ext_equal]
pub struct BattleCharacterView {
    pub base_attr: BaseAttr,
    pub map_cell_index: usize,
    pub index_chosen: bool,
    pub transformed: bool,
    pub buffs: Map<u32, Buff>,
    pub skills: Map<u32, Skill>,
    pub turn_limit_skills: Seq<u32>,
}

impl View for BattleCharacter {
    type V = BattleCharacterView;

    open spec fn view(&self) -> BattleCharacterView {
        BattleCharacterView {
            base_attr: self.base_attr,
            map_cell_index: self.map_cell_index,
            index_chosen: self.index_chosen,
            transformed: self.transformed,
            buffs: self.battle_buffs.buffs@,
            skills: self.skills@,
            turn_limit_skills: self.flow_data.turn_limit_skills@,
        }
    }
}

impl BattleCharacterView {
    pub open spec fn is_died(self) -> bool {
        self.base_attr.hp <= 0
    }
}

#[verifier::ext_equal]
pub struct MapCellView {
    pub index: usize,
    pub user_id: u32,
    pub buffs: Map<u32, Buff>,
}

impl View for MapCell {
    type V = MapCellView;

    open spec fn view(&self) -> MapCellView {
        MapCellView { index: self.index, user_id: self.user_id, buffs: self.buffs@ }
    }
}

#[verifier::ext_equal]
pub struct BattleDataView {
    pub map_cells: Seq<MapCellView>,
    pub cters: Map<u32, BattleCharacterView>,
    pub turn_orders: Seq<u32>,
    pub choice_orders: Seq<u32>,
    pub next_turn_index: usize,
    pub next_choice_index: usize,
}

impl View for BattleData {
    type V = BattleDataView;

    open spec fn view(&self) -> BattleDataView {
        BattleDataView {
            map_cells: self.tile_map.map_cells@.map_values(|c: MapCell| c@),
            cters: self.battle_cter@.map_values(|c: BattleCharacter| c@),
            turn_orders: self.turn_orders@,
            choice_orders: self.choice_orders@,
            next_turn_index: self.next_turn_index,
            next_choice_index: self.next_choice_index,
        }
    }
}

impl BattleDataView {
    pub open spec fn set_cter(self, uid: u32, c: BattleCharacterView) -> BattleDataView {
        BattleDataView { cters: self.cters.insert(uid, c), ..self }
    }

    pub open spec fn set_cell(self, i: int, c: MapCellView) -> BattleDataView {
        BattleDataView { map_cells: self.map_cells.update(i, c), ..self }
    }

    /// Player `uid` has a battle character, alive where `is_alive` asks so.
    pub open spec fn has_cter(self, uid: u32, is_alive: bool) -> bool {
        self.cters.contains_key(uid) && !(is_alive && self.cters[uid].is_died())
    }
}

impl BattleCharacter {
    pub fn get_user_id(&self) -> (r: u32)
        ensures
            r == self.base_attr.user_id,
    {
        self.base_attr.user_id
    }

    pub fn get_map_cell_index(&self) -> (r: usize)
        ensures
            r == self.map_cell_index,
    {
        self.map_cell_index
    }

    pub open spec fn spec_is_died(&self) -> bool {
        self.base_attr.hp <= 0
    }

    pub fn is_died(&self) -> (r: bool)
        ensures
            r == self.spec_is_died(),
    {
        self.base_attr.hp <= 0
    }

    /// Gains `v` energy (loses it where negative), kept between 0 and the
    /// character's maximum.
    pub fn add_energy(&mut self, v: i8)
        ensures
            final(self)@ == (BattleCharacterView {
                base_attr: BaseAttr {
                    energy: energy_after(old(self).base_attr.energy, old(self).base_attr.max_energy, v),
                    ..old(self).base_attr
                },
                ..old(self)@
            }),
    {
        let e: i16 = self.base_attr.energy as i16 + v as i16;
        let max: i16 = self.base_attr.max_energy as i16;
        self.base_attr.energy = if e < 0 {
            0
        } else if e > max {
            self.base_attr.max_energy
        } else {
            e as u8
        };
    }

    pub fn map_cell_index_is_choiced(&self) -> (r: bool)
        ensures
            r == self.index_chosen,
    {
        self.index_chosen
    }
}

pub struct BattleData {
    pub tile_map: TileMap,
    pub battle_cter: HashMap<u32, BattleCharacter>,
    /// Players by turn order; 0 marks an order nobody took.
    pub turn_orders: Vec<u32>,
    /// Players in the order in which they pick their turn order.
    pub choice_orders: Vec<u32>,
    pub next_turn_index: usize,
    pub next_choice_index: usize,
}

/// The energy after gaining `v`, kept between 0 and `max`.
pub open spec fn energy_after(e: u8, max: u8, v: i8) -> u8 {
    let x = e as int + v as int;
    if x < 0 {
        0
    } else if x > max {
        max
    } else {
        x as u8
    }
}

/// The hit points left after taking `damage`, never below 0.
pub open spec fn hp_after(hp: i16, damage: i16) -> i16 {
    let v = hp as int - damage as int;
    if v < 0 {
        0
    } else if v > i16::MAX {
        i16::MAX
    } else {
        v as i16
    }
}

impl BattleDataView {
    /// The state after player `target` took `damage`.
    pub open spec fn after_deduct(self, target: u32, damage: i16) -> BattleDataView {
        let c = self.cters[target];
        self.set_cter(
            target,
            BattleCharacterView {
                base_attr: BaseAttr { hp: hp_after(c.base_attr.hp, damage), ..c.base_attr },
                ..c
            },
        )
    }

    /// The report of player `target` taking `damage`.
    pub open spec fn deduct_report(self, target: u32, damage: i16) -> TargetPtView {
        TargetPtView {
            target_value: seq![self.cters[target].map_cell_index as u32],
            effects: seq![EffectPt { effect_type: EffectType::SkillDamage.code(), effect_value: damage as u32 }],
            ..TargetPtView::empty()
        }
    }

    /// Whether consuming buff `buff_id` from player `user`, or else from cell
    /// `index`, removes it.
    pub open spec fn consumes(self, buff_id: u32, user: Option<u32>, index: Option<usize>) -> bool {
        ||| (user matches Some(u) && self.cters.contains_key(u) && self.cters[u].buffs.contains_key(buff_id))
        ||| (index matches Some(i) && i < self.map_cells.len() && self.map_cells[i as int].buffs.contains_key(buff_id))
    }

    /// The state after consuming buff `buff_id` from player `user`, or else
    /// from cell `index`.
    pub open spec fn after_consume(self, buff_id: u32, user: Option<u32>, index: Option<usize>) -> BattleDataView {
        if user matches Some(u) && self.cters.contains_key(u) && self.cters[u].buffs.contains_key(buff_id) {
            let c = self.cters[user.unwrap()];
            self.set_cter(user.unwrap(), BattleCharacterView { buffs: c.buffs.remove(buff_id), ..c })
        } else if index matches Some(i) && i < self.map_cells.len() && self.map_cells[i as int].buffs.contains_key(buff_id) {
            let c = self.map_cells[index.unwrap() as int];
            self.set_cell(index.unwrap() as int, MapCellView { buffs: c.buffs.remove(buff_id), ..c })
        } else {
            self
        }
    }
}

impl BattleData {
    /// Takes player `uid`'s battle character out.
    pub fn take_cter(&mut self, uid: u32) -> (c: BattleCharacter)
        requires
            old(self)@.cters.contains_key(uid),
        ensures
            c@ == old(self)@.cters[uid],
            final(self)@ == (BattleDataView { cters: old(self)@.cters.remove(uid), ..old(self)@ }),
    {
        let c = self.battle_cter.remove(&uid).unwrap();
        proof {
            lemma_map_values_remove(old(self).battle_cter@, uid, |c: BattleCharacter| c@);
        }
        assert(self@ =~= BattleDataView { cters: old(self)@.cters.remove(uid), ..old(self)@ });
        c
    }

    /// Files battle character `c` under player `uid`.
    pub fn put_cter(&mut self, uid: u32, c: BattleCharacter)
        ensures
            final(self)@ == old(self)@.set_cter(uid, c@),
    {
        self.battle_cter.insert(uid, c);
        proof {
            lemma_map_values_insert(old(self).battle_cter@, uid, c, |c: BattleCharacter| c@);
        }
        assert(self@ =~= old(self)@.set_cter(uid, c@));
    }

    /// Player `uid`'s battle character, where it exists and, if `is_alive`
    /// asks so, is alive.
    pub fn get_battle_cter(&self, uid: Option<u32>, is_alive: bool) -> (r: Option<&BattleCharacter>)
        ensures
            match r {
                Some(c) => uid is Some && self@.has_cter(uid.unwrap(), is_alive) && c@ == self@.cters[uid.unwrap()]
                    && *c == self.battle_cter@[uid.unwrap()],
                None => uid is None || !self@.has_cter(uid.unwrap(), is_alive),
            },
    {
        let uid = match uid {
            Some(u) => u,
            None => return None,
        };
        match self.battle_cter.get(&uid) {
            Some(c) => {
                if is_alive && c.is_died() {
                    None
                } else {
                    Some(c)
                }
            },
            None => None,
        }
    }

    /// Player `target`, alive, takes `damage` from player `from`.
    pub fn deduct_hp(&mut self, from: u32, target: u32, damage: i16) -> (r: Option<TargetPt>)
        ensures
            old(self)@.has_cter(target, true) == r is Some,
            old(self)@.has_cter(target, true) ==> final(self)@ == old(self)@.after_deduct(target, damage)
                && r.unwrap()@ == old(self)@.deduct_report(target, damage),
            !old(self)@.has_cter(target, true) ==> final(self)@ == old(self)@,
    {
        match self.battle_cter.get(&target) {
            None => return None,
            Some(c) => {
                if c.is_died() {
                    return None;
                }
            },
        }
        let mut c = self.take_cter(target);
        let v: i32 = c.base_attr.hp as i32 - damage as i32;
        let hp: i16 = if v < 0 {
            0
        } else if v > i16::MAX as i32 {
            i16::MAX
        } else {
            v as i16
        };
        c.base_attr.hp = hp;
        let mut pt = TargetPt::new();
        pt.target_value.push(#[verifier::truncate] (c.map_cell_index as u32));
        pt.effects.push(EffectPt { effect_type: EffectType::SkillDamage.into_u32(), effect_value: damage as u32 });
        self.put_cter(target, c);
        assert(pt@ =~= old(self)@.deduct_report(target, damage));
        assert(self@ =~= old(self)@.after_deduct(target, damage));
        Some(pt)
    }

    /// Consumes buff `buff_id`: from player `user` where it holds the buff,
    /// else from cell `index` where that holds it. Gives the buff id where a
    /// buff was removed.
    pub fn consume_buff(&mut self, buff_id: u32, user: Option<u32>, index: Option<usize>) -> (r: Option<u32>)
        ensures
            r == if old(self)@.consumes(buff_id, user, index) {
                Some(buff_id)
            } else {
                None
            },
            final(self)@ == old(self)@.after_consume(buff_id, user, index),
    {
        if let Some(u) = user {
            let holds = match self.battle_cter.get(&u) {
                Some(c) => c.battle_buffs.buffs.contains_key(&buff_id),
                None => false,
            };
            if holds {
                let mut c = self.take_cter(u);
                c.battle_buffs.buffs.remove(&buff_id);
                self.put_cter(u, c);
                assert(self@ =~= old(self)@.after_consume(buff_id, user, index));
                return Some(buff_id);
            }
        }
        if let Some(i) = index {
            if i < self.tile_map.map_cells.len() && self.tile_map.map_cells[i].buffs.contains_key(&buff_id) {
                self.tile_map.map_cells[i].buffs.remove(&buff_id);
                assert(self@.map_cells =~= old(self)@.after_consume(buff_id, user, index).map_cells);
                assert(self@ =~= old(self)@.after_consume(buff_id, user, index));
                return Some(buff_id);
            }
        }
        None
    }

    /// Cell `index` exists and nobody stands on it.
    pub open spec fn index_free(&self, index: usize) -> bool {
        index < self.tile_map.map_cells@.len() && self.tile_map.map_cells@[index as int].user_id == 0
    }

    /// A player may pick cell `index` as its starting cell.
    pub fn check_choice_index(&self, index: usize) -> (r: Result<(), Refusal>)
        ensures
            r is Ok <==> self.index_free(index),
            r is Err ==> r == Err::<(), Refusal>(Refusal::InvalidIndex),
    {
        if index >= self.tile_map.map_cells.len() || self.tile_map.map_cells[index].user_id != 0 {
            return Err(Refusal::InvalidIndex);
        }
        Ok(())
    }

    /// Whether it is player `uid`'s turn.
    pub open spec fn is_turn_of(&self, uid: u32) -> bool {
        self.next_turn_index < self.turn_orders@.len() && self.turn_orders@[self.next_turn_index as int] == uid
    }

    /// No board, no characters, no orders yet.
    pub open spec fn is_empty(&self) -> bool {
        &&& self.tile_map.map_cells@.len() == 0
        &&& self.battle_cter@.is_empty()
        &&& self.turn_orders@.len() == 0
        &&& self.choice_orders@.len() == 0
        &&& self.next_turn_index == 0
        &&& self.next_choice_index == 0
    }

    pub fn new() -> (b: BattleData)
        ensures
            b.is_empty(),
    {
        BattleData {
            tile_map: TileMap { map_cells: Vec::new() },
            battle_cter: HashMap::new(),
            turn_orders: Vec::new(),
            choice_orders: Vec::new(),
            next_turn_index: 0,
            next_choice_index: 0,
        }
    }
}

} // verus!

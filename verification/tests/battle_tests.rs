use roomserver::action::{ActionType, ActionUnitPt, EffectType, TargetPt};
use roomserver::battle::{
    BaseAttr, BattleBuffs, BattleCharacter, BattleData, Buff, FlowData, MapCell, Skill, TileMap,
};
use roomserver::battle_trigger::BattleError;
use roomserver::templates::{BuffTemp, BuffTypes, SkillTemp, Templates};
use std::collections::HashMap;

const TRAP_ADD: u32 = 101;
const TRAP_DAMAGE: u32 = 102;
const STICKY: u32 = 201;
const LOCK: u32 = 202;
const CHANGE: u32 = 203;
const ENERGY: u32 = 204;
const LOCKED: u32 = 205;
const TRANSFORM: u32 = 206;
const DEFENSE: u32 = 207;
const WATER: u32 = 301;

fn buff_types() -> BuffTypes {
    BuffTypes {
        traps: vec![TRAP_ADD, TRAP_DAMAGE],
        trap_add_buff: vec![TRAP_ADD],
        trap_skill_damage: vec![TRAP_DAMAGE],
        can_not_moved: STICKY,
        lock_skills: vec![LOCK],
        change_skill: vec![CHANGE],
        attacked_add_energy: vec![ENERGY],
        locked: LOCKED,
        transform_buff: vec![TRANSFORM],
        defense_near_move_skill_damage: vec![DEFENSE],
        trigger_scope_near: vec![-1, 1],
        water_turret: WATER,
        limit_turn_times: 1,
        limit_round_times: 2,
    }
}

fn templates() -> Templates {
    let mut skills = HashMap::new();
    skills.insert(WATER, SkillTemp { id: WATER, skill_judge: 0, par2: 302 });
    skills.insert(302, SkillTemp { id: 302, skill_judge: 1, par2: 77 });
    skills.insert(303, SkillTemp { id: 303, skill_judge: 2, par2: 0 });
    skills.insert(304, SkillTemp { id: 304, skill_judge: 0, par2: 0 });
    let mut buffs = HashMap::new();
    buffs.insert(500, BuffTemp { id: 500, par1: 0 });
    Templates { characters: HashMap::new(), emojis: HashMap::new(), skills, buffs, buff_types: buff_types() }
}

fn buff(id: u32, par1: u32, from_user: Option<u32>, from_skill: Option<u32>) -> Buff {
    Buff { id, buff_temp: BuffTemp { id, par1 }, from_user, from_skill, turn_index: None }
}

fn cter(uid: u32, index: usize, hp: i16) -> BattleCharacter {
    BattleCharacter {
        base_attr: BaseAttr { user_id: uid, hp, max_energy: 5, energy: 1 },
        map_cell_index: index,
        index_chosen: true,
        transformed: false,
        battle_buffs: BattleBuffs { buffs: HashMap::new() },
        skills: HashMap::new(),
        flow_data: FlowData { turn_limit_skills: vec![] },
    }
}

fn battle() -> BattleData {
    let mut map_cells = Vec::new();
    for i in 0..5usize {
        map_cells.push(MapCell { index: i, user_id: 0, buffs: HashMap::new() });
    }
    let mut battle_cter = HashMap::new();
    battle_cter.insert(1, cter(1, 0, 10));
    battle_cter.insert(2, cter(2, 3, 10));
    BattleData {
        tile_map: TileMap { map_cells },
        battle_cter,
        turn_orders: vec![1, 2],
        choice_orders: vec![],
        next_turn_index: 1,
        next_choice_index: 0,
    }
}

#[test]
fn before_moved_trigger_respects_sticky_buff() {
    let mut b = battle();
    let t = templates();
    assert_eq!(b.before_moved_trigger(&t, 1, 2), Ok(()));
    b.battle_cter.get_mut(&2).unwrap().battle_buffs.buffs.insert(STICKY, buff(STICKY, 0, None, None));
    assert_eq!(b.before_moved_trigger(&t, 1, 2), Err(BattleError::CanNotMove { cter_id: 2, buff_id: STICKY }));
    assert_eq!(b.before_moved_trigger(&t, 2, 2), Ok(()));
}

#[test]
fn before_use_skill_trigger_refuses_locked_character() {
    let mut b = battle();
    let t = templates();
    assert_eq!(b.before_use_skill_trigger(&t, 1), Ok(()));
    assert_eq!(b.before_use_skill_trigger(&t, 9), Err(BattleError::CterNotFound));
    b.battle_cter.get_mut(&1).unwrap().battle_buffs.buffs.insert(7, buff(7, 0, None, None));
    b.battle_cter.get_mut(&1).unwrap().battle_buffs.buffs.insert(LOCK, buff(LOCK, 0, None, None));
    assert_eq!(b.before_use_skill_trigger(&t, 1), Err(BattleError::SkillsLocked { buff_id: LOCK }));
    b.battle_cter.get_mut(&1).unwrap().base_attr.hp = 0;
    assert_eq!(b.before_use_skill_trigger(&t, 1), Err(BattleError::CterNotFound));
}

#[test]
fn buff_lost_trigger_ends_transformation() {
    let mut b = battle();
    let t = templates();
    b.battle_cter.get_mut(&1).unwrap().transformed = true;
    b.buff_lost_trigger(&t, 1, 7);
    assert!(b.battle_cter.get(&1).unwrap().transformed);
    b.buff_lost_trigger(&t, 1, TRANSFORM);
    assert!(!b.battle_cter.get(&1).unwrap().transformed);
}

fn empty_au() -> ActionUnitPt {
    ActionUnitPt { from_user: 0, action_type: 0, action_value: vec![], targets: vec![] }
}

#[test]
fn water_turret_is_replaced_and_limits_noted() {
    let mut b = battle();
    let t = templates();
    let water = Skill { id: WATER, skill_temp: SkillTemp { id: WATER, skill_judge: 0, par2: 302 }, is_active: true };
    b.battle_cter.get_mut(&1).unwrap().skills.insert(WATER, water);
    let mut au = empty_au();
    b.after_use_skill_trigger(&t, 1, WATER, false, &mut au);
    let c = b.battle_cter.get(&1).unwrap();
    assert!(!c.skills.contains_key(&WATER));
    assert_eq!(c.skills.get(&302).unwrap().id, 302);
    assert!(!c.skills.get(&302).unwrap().is_active);
    assert!(c.flow_data.turn_limit_skills.is_empty());
    assert_eq!(au.targets.len(), 1);
    assert_eq!(au.targets[0].target_value, vec![0]);
    assert_eq!(au.targets[0].lost_buffs, vec![WATER]);
    assert_eq!(au.targets[0].effects[0].effect_type, EffectType::AddSkill.into_u32());
    assert_eq!(au.targets[0].effects[0].effect_value, 77);
}

#[test]
fn limited_skills_are_noted() {
    let mut b = battle();
    let t = templates();
    let mut au = empty_au();
    b.after_use_skill_trigger(&t, 2, 303, true, &mut au);
    b.after_use_skill_trigger(&t, 2, 302, true, &mut au);
    b.after_use_skill_trigger(&t, 2, 304, true, &mut au);
    b.after_use_skill_trigger(&t, 2, 999, true, &mut au);
    assert_eq!(b.battle_cter.get(&2).unwrap().flow_data.turn_limit_skills, vec![303, 302]);
    assert!(au.targets.is_empty());
}

#[test]
fn attacked_buffs_consume_and_give_energy() {
    let mut b = battle();
    let t = templates();
    {
        let c = b.battle_cter.get_mut(&1).unwrap();
        c.battle_buffs.buffs.insert(CHANGE, buff(CHANGE, 0, None, None));
        c.battle_buffs.buffs.insert(ENERGY, buff(ENERGY, 9, None, None));
    }
    let mut tp = TargetPt::new();
    b.attacked_buffs_trigger(&t, 1, &mut tp);
    let c = b.battle_cter.get(&1).unwrap();
    assert!(!c.battle_buffs.buffs.contains_key(&CHANGE));
    assert!(c.battle_buffs.buffs.contains_key(&ENERGY));
    assert_eq!(c.base_attr.energy, 5);
    assert_eq!(tp.lost_buffs, vec![CHANGE]);
    assert_eq!(tp.passive_effect.len(), 1);
    assert_eq!(tp.passive_effect[0].field_type, EffectType::AddEnergy.into_u32());
    assert_eq!(tp.passive_effect[0].buff_id, ENERGY);
    assert_eq!(tp.passive_effect[0].value, 9);
}

#[test]
fn no_energy_for_character_without_energy() {
    let mut b = battle();
    let t = templates();
    {
        let c = b.battle_cter.get_mut(&1).unwrap();
        c.base_attr.max_energy = 0;
        c.base_attr.energy = 0;
        c.battle_buffs.buffs.insert(ENERGY, buff(ENERGY, 3, None, None));
    }
    let mut tp = TargetPt::new();
    b.attacked_buffs_trigger(&t, 1, &mut tp);
    assert_eq!(b.battle_cter.get(&1).unwrap().base_attr.energy, 0);
    assert!(tp.passive_effect.is_empty());
}

#[test]
fn map_refresh_deactivates_locked_skills() {
    let mut b = battle();
    let t = templates();
    let skill = Skill { id: 304, skill_temp: SkillTemp { id: 304, skill_judge: 0, par2: 0 }, is_active: true };
    b.battle_cter.get_mut(&2).unwrap().skills.insert(304, skill);
    b.battle_cter.get_mut(&2).unwrap().skills.insert(303, Skill { id: 303, is_active: true, ..skill });
    b.tile_map.map_cells[4].buffs.insert(LOCKED, buff(LOCKED, 0, Some(2), Some(304)));
    b.tile_map.map_cells[2].buffs.insert(LOCKED, buff(LOCKED, 0, Some(9), Some(303)));
    b.before_map_refresh_buff_trigger(&t);
    let c = b.battle_cter.get(&2).unwrap();
    assert!(!c.skills.get(&304).unwrap().is_active);
    assert!(c.skills.get(&303).unwrap().is_active);
    b.before_map_refresh_buff_trigger(&t);
    assert!(!b.battle_cter.get(&2).unwrap().skills.get(&304).unwrap().is_active);
}

#[test]
fn traps_spring_on_the_character() {
    let mut b = battle();
    let t = templates();
    b.tile_map.map_cells[3].buffs.insert(TRAP_DAMAGE, buff(TRAP_DAMAGE, 4, Some(1), None));
    assert!(b.trigger_trap(&t, 2, 9).is_none());
    let reports = b.trigger_trap(&t, 2, 3).unwrap();
    assert_eq!(b.battle_cter.get(&2).unwrap().base_attr.hp, 6);
    assert!(b.tile_map.map_cells[3].buffs.is_empty());
    assert_eq!(reports.len(), 1);
    assert_eq!(reports[0].from_user, 1);
    assert_eq!(reports[0].action_type, ActionType::Buff.into_u32());
    assert_eq!(reports[0].action_value, vec![TRAP_DAMAGE]);
    assert_eq!(reports[0].targets[0].lost_buffs, vec![TRAP_DAMAGE]);
    assert_eq!(reports[0].targets[0].target_value, vec![3]);
}

#[test]
fn adding_trap_puts_buff_under_trap_id() {
    let mut b = battle();
    let t = templates();
    b.tile_map.map_cells[3].buffs.insert(TRAP_ADD, buff(TRAP_ADD, 500, None, None));
    let reports = b.trigger_trap(&t, 2, 3).unwrap();
    assert!(reports.is_empty());
    let added = b.battle_cter.get(&2).unwrap().battle_buffs.buffs.get(&TRAP_ADD).unwrap();
    assert_eq!(added.id, 500);
    assert_eq!(added.turn_index, Some(1));
    assert!(b.tile_map.map_cells[3].buffs.contains_key(&TRAP_ADD));
}

#[test]
fn damage_never_takes_hp_below_zero() {
    let mut b = battle();
    let t = templates();
    b.tile_map.map_cells[3].buffs.insert(TRAP_DAMAGE, buff(TRAP_DAMAGE, 40, Some(1), None));
    b.trigger_trap(&t, 2, 3).unwrap();
    assert_eq!(b.battle_cter.get(&2).unwrap().base_attr.hp, 0);
    assert!(b.battle_cter.get(&2).unwrap().is_died());
    let pt = b.deduct_hp(1, 2, 3);
    assert!(pt.is_none());
}

#[test]
fn moving_next_to_a_defender_hurts() {
    let mut b = battle();
    let t = templates();
    b.battle_cter.get_mut(&2).unwrap().battle_buffs.buffs.insert(DEFENSE, buff(DEFENSE, 3, None, None));
    let reports = b.after_move_trigger(&t, 1, 2, false);
    assert_eq!(b.battle_cter.get(&1).unwrap().base_attr.hp, 7);
    assert_eq!(reports.len(), 1);
    assert_eq!(reports[0].from_user, 2);
    assert_eq!(reports[0].action_value, vec![DEFENSE]);
    let reports = b.after_move_trigger(&t, 1, 2, true);
    assert!(reports.is_empty());
    let reports = b.after_move_trigger(&t, 1, 0, false);
    assert!(reports.is_empty());
    assert_eq!(b.battle_cter.get(&1).unwrap().base_attr.hp, 7);
}

#[test]
fn energy_gain_is_capped() {
    let mut c = cter(1, 0, 10);
    c.add_energy(3);
    assert_eq!(c.base_attr.energy, 4);
    c.add_energy(9);
    assert_eq!(c.base_attr.energy, 5);
    c.add_energy(-8);
    assert_eq!(c.base_attr.energy, 0);
}

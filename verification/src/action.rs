//! What the battle reports to clients: the effects of an action on its
//! targets.

use vstd::prelude::*;

verus! {

/// What kind of action a report describes.
#[derive(Clone, Copy, Debug, PartialEq, Eq, Structural)]
pub enum ActionType {
    Attack,
    UseItem,
    Skip,
    Open,
    Skill,
    Buff,
}

impl ActionType {
    pub open spec fn code(self) -> u32 {
        match self {
            ActionType::Attack => 1,
            ActionType::UseItem => 2,
            ActionType::Skip => 3,
            ActionType::Open => 4,
            ActionType::Skill => 5,
            ActionType::Buff => 6,
        }
    }

    pub fn into_u32(self) -> (r: u32)
        ensures
            r == self.code(),
    {
        match self {
            ActionType::Attack => 1,
            ActionType::UseItem => 2,
            ActionType::Skip => 3,
            ActionType::Open => 4,
            ActionType::Skill => 5,
            ActionType::Buff => 6,
        }
    }
}

/// What an effect does to its target.
#[derive(Clone, Copy, Debug, PartialEq, Eq, Structural)]
pub enum EffectType {
    SkillDamage,
    AttackDamage,
    Cure,
    SubEnergy,
    AddEnergy,
    AddSkill,
}

impl EffectType {
    pub open spec fn code(self) -> u32 {
        match self {
            EffectType::SkillDamage => 1,
            EffectType::AttackDamage => 2,
            EffectType::Cure => 3,
            EffectType::SubEnergy => 4,
            EffectType::AddEnergy => 5,
            EffectType::AddSkill => 6,
        }
    }

    pub fn into_u32(self) -> (r: u32)
        ensures
            r == self.code(),
    {
        match self {
            EffectType::SkillDamage => 1,
            EffectType::AttackDamage => 2,
            EffectType::Cure => 3,
            EffectType::SubEnergy => 4,
            EffectType::AddEnergy => 5,
            EffectType::AddSkill => 6,
        }
    }
}

#[derive(Clone, Copy, Debug, PartialEq, Eq, Structural)]
pub struct EffectPt {
    pub effect_type: u32,
    pub effect_value: u32,
}

/// An effect that a buff of the target set off.
#[derive(Clone, Copy, Debug, PartialEq, Eq, Structural)]
pub struct TriggerEffectPt {
    pub field_type: u32,
    pub buff_id: u32,
    pub value: u32,
}

/// What happened to one target.
pub struct TargetPt {
    /// The target's cell.
    pub target_value: Vec<u32>,
    pub add_buffs: Vec<u32>,
    pub lost_buffs: Vec<u32>,
    pub effects: Vec<EffectPt>,
    pub passive_effect: Vec<TriggerEffectPt>,
}

#[verifier::ext_equal]
pub struct TargetPtView {
    pub target_value: Seq<u32>,
    pub add_buffs: Seq<u32>,
    pub lost_buffs: Seq<u32>,
    pub effects: Seq<EffectPt>,
    pub passive_effect: Seq<TriggerEffectPt>,
}

impl View for TargetPt {
    type V = TargetPtView;

    open spec fn view(&self) -> TargetPtView {
        TargetPtView {
            target_value: self.target_value@,
            add_buffs: self.add_buffs@,
            lost_buffs: self.lost_buffs@,
            effects: self.effects@,
            passive_effect: self.passive_effect@,
        }
    }
}

impl TargetPtView {
    pub open spec fn empty() -> TargetPtView {
        TargetPtView {
            target_value: Seq::empty(),
            add_buffs: Seq::empty(),
            lost_buffs: Seq::empty(),
            effects: Seq::empty(),
            passive_effect: Seq::empty(),
        }
    }
}

impl TargetPt {
    pub fn new() -> (t: TargetPt)
        ensures
            t@ == TargetPtView::empty(),
    {
        TargetPt {
            target_value: Vec::new(),
            add_buffs: Vec::new(),
            lost_buffs: Vec::new(),
            effects: Vec::new(),
            passive_effect: Vec::new(),
        }
    }
}

/// One action and what it did to its targets.
pub struct ActionUnitPt {
    pub from_user: u32,
    pub action_type: u32,
    pub action_value: Vec<u32>,
    pub targets: Vec<TargetPt>,
}

#[verifier::ext_equal]
pub struct ActionUnitPtView {
    pub from_user: u32,
    pub action_type: u32,
    pub action_value: Seq<u32>,
    pub targets: Seq<TargetPtView>,
}

impl View for ActionUnitPt {
    type V = ActionUnitPtView;

    open spec fn view(&self) -> ActionUnitPtView {
        ActionUnitPtView {
            from_user: self.from_user,
            action_type: self.action_type,
            action_value: self.action_value@,
            targets: self.targets@.map_values(|t: TargetPt| t@),
        }
    }
}

impl ActionUnitPt {
    pub fn new() -> (a: ActionUnitPt)
        ensures
            a@ == (ActionUnitPtView {
                from_user: 0,
                action_type: 0,
                action_value: Seq::empty(),
                targets: Seq::empty(),
            }),
    {
        let a = ActionUnitPt { from_user: 0, action_type: 0, action_value: Vec::new(), targets: Vec::new() };
        assert(a@.targets =~= Seq::<TargetPtView>::empty());
        a
    }
}

} // verus!

//! The rules that buffs and skills set off when characters move, use
//! skills, are attacked, or lose buffs, and when the board is refreshed.

use crate::action::{
    ActionType, ActionUnitPt, ActionUnitPtView, EffectPt, EffectType, TargetPt, TargetPtView, TriggerEffectPt,
};
use crate::battle::{
    energy_after, BaseAttr, BattleCharacterView, BattleData, BattleDataView, Buff, MapCellView, Skill,
};
use crate::templates::SkillTemp;
use crate::collections::{map_keys, vec_contains};
use crate::templates::Templates;
use vstd::prelude::*;
use vstd::std_specs::iter::IteratorSpec;

verus! {

broadcast use vstd::std_specs::hash::group_hash_axioms;

/// Why a battle action is not allowed.
#[derive(Clone, Copy, Debug, PartialEq, Eq, Structural)]
pub enum BattleError {
    /// The player has no living battle character.
    CterNotFound,
    /// The character holds a buff that keeps others from moving it.
    CanNotMove { cter_id: u32, buff_id: u32 },
    /// The character holds a buff that keeps it from using skills.
    SkillsLocked { buff_id: u32 },
}

/// A fresh, inactive skill of template `t`.
pub open spec fn fresh_skill(t: SkillTemp) -> Skill {
    Skill { id: t.id, skill_temp: t, is_active: false }
}

/// The skill that player `user` uses: for an item, a fresh skill of the
/// item's template; otherwise the character's own skill.
pub open spec fn used_skill(v: BattleDataView, templates: &Templates, user: u32, skill_id: u32, is_item: bool) -> Skill {
    if is_item {
        fresh_skill(templates.skills@[skill_id])
    } else {
        v.cters[user].skills[skill_id]
    }
}

/// Whether the use of a skill goes on past replacing the water turret.
pub open spec fn use_skill_proceeds(v: BattleDataView, templates: &Templates, user: u32, skill_id: u32, is_item: bool) -> bool {
    &&& is_item ==> templates.skills@.contains_key(skill_id)
    &&& used_skill(v, templates, user, skill_id, is_item).id == templates.buff_types.water_turret
        ==> templates.skills@.contains_key(used_skill(v, templates, user, skill_id, is_item).skill_temp.par2)
}

/// Where `after_use_skill_trigger` reaches them, the character's skill and
/// the used skill's template exist.
pub open spec fn after_use_skill_ok(v: BattleDataView, templates: &Templates, user: u32, skill_id: u32, is_item: bool) -> bool {
    v.has_cter(user, true) ==> {
        &&& !is_item ==> v.cters[user].skills.contains_key(skill_id)
        &&& use_skill_proceeds(v, templates, user, skill_id, is_item) ==> templates.skills@.contains_key(skill_id)
    }
}

/// The character after using skill `skill_id` of judge `judge`: a skill of
/// limited use is noted as used this turn.
pub open spec fn note_limited(c: BattleCharacterView, templates: &Templates, skill_id: u32) -> BattleCharacterView {
    let judge = templates.skills@[skill_id].skill_judge;
    if judge == templates.buff_types.limit_turn_times || judge == templates.buff_types.limit_round_times {
        BattleCharacterView { turn_limit_skills: c.turn_limit_skills.push(skill_id), ..c }
    } else {
        c
    }
}

impl BattleData {
    /// Player `from_user` is about to move player `target_user`'s
    /// character: not allowed where that character holds the
    /// cannot-be-moved buff and another player moves it.
    pub fn before_moved_trigger(&self, templates: &Templates, from_user: u32, target_user: u32) -> (r: Result<(), BattleError>)
        requires
            self@.has_cter(target_user, true),
        ensures
            (self@.cters[target_user].buffs.contains_key(templates.buff_types.can_not_moved) && from_user
                != target_user) ==> r == Err::<(), BattleError>(
                BattleError::CanNotMove { cter_id: target_user, buff_id: templates.buff_types.can_not_moved },
            ),
            !(self@.cters[target_user].buffs.contains_key(templates.buff_types.can_not_moved) && from_user
                != target_user) ==> r is Ok,
    {
        let target_cter = self.get_battle_cter(Some(target_user), true).unwrap();
        let can_not_moved = templates.buff_types.can_not_moved;
        if target_cter.battle_buffs.buffs.contains_key(&can_not_moved) && from_user != target_user {
            return Err(BattleError::CanNotMove { cter_id: target_user, buff_id: can_not_moved });
        }
        Ok(())
    }

    /// Player `user_id` is about to use a skill: not allowed without a
    /// living character, or where the character holds a skill-locking buff.
    #[verifier::loop_isolation(false)]
    pub fn before_use_skill_trigger(&self, templates: &Templates, user_id: u32) -> (r: Result<(), BattleError>)
        ensures
            !self@.has_cter(user_id, true) ==> r == Err::<(), BattleError>(BattleError::CterNotFound),
            self@.has_cter(user_id, true) ==> {
                let lock = templates.buff_types.lock_skills@;
                let buffs = self@.cters[user_id].buffs;
                &&& r is Ok <==> !(exists|b: u32| #[trigger] buffs.contains_key(b) && lock.contains(b))
                &&& r matches Err(e) ==> (e matches BattleError::SkillsLocked { buff_id }
                    && buffs.contains_key(buff_id) && lock.contains(buff_id))
            },
    {
        let cter = match self.get_battle_cter(Some(user_id), true) {
            Some(c) => c,
            None => return Err(BattleError::CterNotFound),
        };
        let lock_skills = &templates.buff_types.lock_skills;
        let ids = map_keys(&cter.battle_buffs.buffs);
        let n = ids.len();
        for i in 0..n
            invariant
                n == ids@.len(),
                ids@.to_set() == self@.cters[user_id].buffs.dom(),
                forall|j: int| 0 <= j < i ==> !lock_skills@.contains(#[trigger] ids@[j]),
        {
            if vec_contains(lock_skills, ids[i]) {
                assert(ids@.to_set().contains(ids@[i as int]));
                return Err(BattleError::SkillsLocked { buff_id: ids[i] });
            }
        }
        assert forall|b: u32| #[trigger] self@.cters[user_id].buffs.contains_key(b) implies !lock_skills@.contains(b) by {
            assert(ids@.to_set().contains(b));
            let j = choose|j: int| 0 <= j < ids@.len() && ids@[j] == b;
        }
        Ok(())
    }

    /// Player `user_id`'s living character lost buff `buff_id`; a
    /// transforming buff gone, the character takes its own shape again.
    pub fn buff_lost_trigger(&mut self, templates: &Templates, user_id: u32, buff_id: u32)
        ensures
            (old(self)@.has_cter(user_id, true) && templates.buff_types.transform_buff@.contains(buff_id))
                ==> final(self)@ == old(self)@.set_cter(
                user_id,
                BattleCharacterView { transformed: false, ..old(self)@.cters[user_id] },
            ),
            !(old(self)@.has_cter(user_id, true) && templates.buff_types.transform_buff@.contains(buff_id))
                ==> final(self)@ == old(self)@,
    {
        if self.get_battle_cter(Some(user_id), true).is_none() {
            return;
        }
        if vec_contains(&templates.buff_types.transform_buff, buff_id) {
            let mut cter = self.take_cter(user_id);
            cter.transformed = false;
            self.put_cter(user_id, cter);
            assert(final(self)@ =~= old(self)@.set_cter(
                user_id,
                BattleCharacterView { transformed: false, ..old(self)@.cters[user_id] },
            ));
        }
    }
}

/// Cell `cell` holds the locking buff, put there by player `u` with skill `s`.
pub open spec fn locks(cell: MapCellView, locked: u32, u: u32, s: u32) -> bool {
    &&& cell.buffs.contains_key(locked)
    &&& cell.buffs[locked].from_user == Some(u)
    &&& cell.buffs[locked].from_skill == Some(s)
}

/// Some cell of `cells` holds the locking buff of player `u`'s skill `s`.
pub open spec fn locked_by(cells: Seq<MapCellView>, locked: u32, u: u32, s: u32) -> bool {
    exists|i: int| 0 <= i < cells.len() && locks(#[trigger] cells[i], locked, u, s)
}

/// Player `u`'s character with every skill that some cell of `cells` locks
/// made inactive.
pub open spec fn unlock_skills(c: BattleCharacterView, u: u32, cells: Seq<MapCellView>, locked: u32) -> BattleCharacterView {
    BattleCharacterView {
        skills: Map::new(
            |s: u32| c.skills.contains_key(s),
            |s: u32|
                if locked_by(cells, locked, u, s) {
                    Skill { is_active: false, ..c.skills[s] }
                } else {
                    c.skills[s]
                },
        ),
        ..c
    }
}

/// The battle after the skills that the cells `cells` lock were made
/// inactive.
pub open spec fn refreshed(v: BattleDataView, cells: Seq<MapCellView>, locked: u32) -> BattleDataView {
    BattleDataView {
        cters: Map::new(
            |u: u32| v.cters.contains_key(u),
            |u: u32| unlock_skills(v.cters[u], u, cells, locked),
        ),
        ..v
    }
}

/// Every locking buff on the board that names its player names its skill.
pub open spec fn locks_name_skills(v: BattleDataView, locked: u32) -> bool {
    forall|i: int|
        0 <= i < v.map_cells.len() && #[trigger] v.map_cells[i].buffs.contains_key(locked)
            && v.map_cells[i].buffs[locked].from_user is Some ==> v.map_cells[i].buffs[locked].from_skill is Some
}

/// One buff's effect when player `user` is attacked: a skill-changing buff
/// is consumed and reported lost; an energy buff, where the character can
/// hold energy at all, gives its energy and is reported.
pub open spec fn attacked_step(
    st: (BattleDataView, TargetPtView),
    templates: &Templates,
    user: u32,
    b: Buff,
    max_energy: u8,
) -> (BattleDataView, TargetPtView) {
    let v = st.0;
    let t = st.1;
    let v1 = if templates.buff_types.change_skill@.contains(b.id) {
        v.after_consume(b.id, Some(user), None)
    } else {
        v
    };
    let t1 = if templates.buff_types.change_skill@.contains(b.id) {
        TargetPtView { lost_buffs: t.lost_buffs.push(b.id), ..t }
    } else {
        t
    };
    if templates.buff_types.attacked_add_energy@.contains(b.id) && max_energy > 0 {
        let c = v1.cters[user];
        (
            v1.set_cter(
                user,
                BattleCharacterView {
                    base_attr: BaseAttr {
                        energy: energy_after(c.base_attr.energy, c.base_attr.max_energy, b.buff_temp.par1 as i8),
                        ..c.base_attr
                    },
                    ..c
                },
            ),
            TargetPtView {
                passive_effect: t1.passive_effect.push(
                    TriggerEffectPt { field_type: EffectType::AddEnergy.code(), buff_id: b.id, value: b.buff_temp.par1 },
                ),
                ..t1
            },
        )
    } else {
        (v1, t1)
    }
}

/// The effects of the buffs `buffs`, one after another.
pub open spec fn attacked_fold(
    st: (BattleDataView, TargetPtView),
    templates: &Templates,
    user: u32,
    buffs: Seq<Buff>,
    max_energy: u8,
) -> (BattleDataView, TargetPtView)
    decreases buffs.len(),
{
    if buffs.len() == 0 {
        st
    } else {
        attacked_step(
            attacked_fold(st, templates, user, buffs.drop_last(), max_energy),
            templates,
            user,
            buffs.last(),
            max_energy,
        )
    }
}

/// A sprung trap `b` that had effect `tp`: where a player set it, it is
/// consumed from cell `index` and reported as that player's buff action.
pub open spec fn trap_report(st: (BattleDataView, Seq<ActionUnitPtView>), tp: TargetPtView, b: Buff, index: usize) -> (BattleDataView, Seq<ActionUnitPtView>) {
    let v = st.0;
    if b.from_user is None {
        st
    } else {
        let tp2 = if v.consumes(b.id, None, Some(index)) {
            TargetPtView { lost_buffs: tp.lost_buffs.push(b.id), ..tp }
        } else {
            tp
        };
        (
            v.after_consume(b.id, None, Some(index)),
            st.1.push(
                ActionUnitPtView {
                    from_user: b.from_user.unwrap(),
                    action_type: ActionType::Buff.code(),
                    action_value: seq![b.id],
                    targets: seq![tp2],
                },
            ),
        )
    }
}

/// Trap `b` of cell `index` springs on player `user`: an adding trap puts a
/// buff of the template it names on the character, filed under the trap's
/// id; a damaging trap deals its damage to a living character.
pub open spec fn trap_step(
    st: (BattleDataView, Seq<ActionUnitPtView>),
    templates: &Templates,
    user: u32,
    index: usize,
    turn_index: usize,
    b: Buff,
) -> (BattleDataView, Seq<ActionUnitPtView>) {
    let v = st.0;
    let bt = templates.buff_types;
    let par = b.buff_temp.par1;
    if !bt.traps@.contains(b.id) {
        st
    } else if bt.trap_add_buff@.contains(b.id) {
        if !templates.buffs@.contains_key(par) {
            st
        } else {
            let temp = templates.buffs@[par];
            let c = v.cters[user];
            let added = Buff { id: temp.id, buff_temp: temp, from_user: None, from_skill: None, turn_index: Some(turn_index) };
            trap_report(
                (v.set_cter(user, BattleCharacterView { buffs: c.buffs.insert(b.id, added), ..c }), st.1),
                TargetPtView {
                    target_value: seq![c.map_cell_index as u32],
                    add_buffs: seq![par],
                    ..TargetPtView::empty()
                },
                b,
                index,
            )
        }
    } else if bt.trap_skill_damage@.contains(b.id) {
        if !v.has_cter(user, true) {
            st
        } else {
            trap_report(
                (v.after_deduct(user, par as i16), st.1),
                v.deduct_report(user, par as i16),
                b,
                index,
            )
        }
    } else {
        st
    }
}

/// The traps `buffs`, sprung one after another.
pub open spec fn trap_fold(
    st: (BattleDataView, Seq<ActionUnitPtView>),
    templates: &Templates,
    user: u32,
    index: usize,
    turn_index: usize,
    buffs: Seq<Buff>,
) -> (BattleDataView, Seq<ActionUnitPtView>)
    decreases buffs.len(),
{
    if buffs.len() == 0 {
        st
    } else {
        trap_step(trap_fold(st, templates, user, index, turn_index, buffs.drop_last()), templates, user, index, turn_index, buffs.last())
    }
}

/// A character on cell `idx` is near cell `index`: some near offset leads
/// from one to the other.
pub open spec fn near(idx: usize, index: isize, scopes: Seq<isize>) -> bool {
    exists|j: int| 0 <= j < scopes.len() && (idx as isize) as int + #[trigger] scopes[j] as int == index as int
}

/// Buff `b` of player `other` acts on player `mover`, who moved to cell
/// `index`: a near-defense buff, where the move swapped no places, deals its
/// damage to the mover, alive and near `other`, and is reported.
pub open spec fn defense_step(
    st: (BattleDataView, Seq<ActionUnitPtView>),
    templates: &Templates,
    mover: u32,
    index: isize,
    both: bool,
    other: u32,
    b: Buff,
) -> (BattleDataView, Seq<ActionUnitPtView>) {
    let v = st.0;
    let bt = templates.buff_types;
    let damage = b.buff_temp.par1 as i16;
    if bt.defense_near_move_skill_damage@.contains(b.id) && !both && near(
        v.cters[other].map_cell_index,
        index,
        bt.trigger_scope_near@,
    ) && v.has_cter(mover, true) {
        (
            v.after_deduct(mover, damage),
            st.1.push(
                ActionUnitPtView {
                    from_user: v.cters[other].base_attr.user_id,
                    action_type: ActionType::Buff.code(),
                    action_value: seq![b.id],
                    targets: seq![v.deduct_report(mover, damage)],
                },
            ),
        )
    } else {
        st
    }
}

/// The buffs `bs` of player `other` acting one after another.
pub open spec fn defense_fold(
    st: (BattleDataView, Seq<ActionUnitPtView>),
    templates: &Templates,
    mover: u32,
    index: isize,
    both: bool,
    other: u32,
    bs: Seq<u32>,
) -> (BattleDataView, Seq<ActionUnitPtView>)
    decreases bs.len(),
{
    if bs.len() == 0 {
        st
    } else {
        let prev = defense_fold(st, templates, mover, index, both, other, bs.drop_last());
        defense_step(prev, templates, mover, index, both, other, prev.0.cters[other].buffs[bs.last()])
    }
}

/// The living characters `os` acting on the mover one after another, each
/// with its buffs in the order `inner` gives.
pub open spec fn others_fold(
    st: (BattleDataView, Seq<ActionUnitPtView>),
    templates: &Templates,
    mover: u32,
    index: isize,
    both: bool,
    os: Seq<u32>,
    inner: Map<u32, Seq<u32>>,
) -> (BattleDataView, Seq<ActionUnitPtView>)
    decreases os.len(),
{
    if os.len() == 0 {
        st
    } else {
        let prev = others_fold(st, templates, mover, index, both, os.drop_last(), inner);
        let o = os.last();
        if prev.0.cters[o].is_died() {
            prev
        } else {
            defense_fold(prev, templates, mover, index, both, o, inner[o])
        }
    }
}

/// A dead mover takes no more damage.
proof fn lemma_defense_fold_dead(
    st: (BattleDataView, Seq<ActionUnitPtView>),
    templates: &Templates,
    mover: u32,
    index: isize,
    both: bool,
    other: u32,
    bs: Seq<u32>,
)
    requires
        !st.0.has_cter(mover, true),
    ensures
        defense_fold(st, templates, mover, index, both, other, bs) == st,
    decreases bs.len(),
{
    if bs.len() > 0 {
        lemma_defense_fold_dead(st, templates, mover, index, both, other, bs.drop_last());
    }
}

/// Folding over two runs of buffs is folding over the first, then the second.
proof fn lemma_defense_fold_append(
    st: (BattleDataView, Seq<ActionUnitPtView>),
    templates: &Templates,
    mover: u32,
    index: isize,
    both: bool,
    other: u32,
    bs1: Seq<u32>,
    bs2: Seq<u32>,
)
    ensures
        defense_fold(st, templates, mover, index, both, other, bs1 + bs2) == defense_fold(
            defense_fold(st, templates, mover, index, both, other, bs1),
            templates,
            mover,
            index,
            both,
            other,
            bs2,
        ),
    decreases bs2.len(),
{
    if bs2.len() > 0 {
        lemma_defense_fold_append(st, templates, mover, index, both, other, bs1, bs2.drop_last());
        assert((bs1 + bs2).drop_last() =~= bs1 + bs2.drop_last());
        assert((bs1 + bs2).last() == bs2.last());
    } else {
        assert(bs1 + bs2 =~= bs1);
    }
}

/// The order of the buffs of characters outside `os` does not matter.
proof fn lemma_others_fold_inner(
    st: (BattleDataView, Seq<ActionUnitPtView>),
    templates: &Templates,
    mover: u32,
    index: isize,
    both: bool,
    os: Seq<u32>,
    inner1: Map<u32, Seq<u32>>,
    inner2: Map<u32, Seq<u32>>,
)
    requires
        forall|j: int| 0 <= j < os.len() ==> inner1[#[trigger] os[j]] == inner2[os[j]],
    ensures
        others_fold(st, templates, mover, index, both, os, inner1) == others_fold(
            st,
            templates,
            mover,
            index,
            both,
            os,
            inner2,
        ),
    decreases os.len(),
{
    if os.len() > 0 {
        assert(inner1[os[os.len() - 1]] == inner2[os[os.len() - 1]]);
        lemma_others_fold_inner(st, templates, mover, index, both, os.drop_last(), inner1, inner2);
    }
}

/// `fin` and the reports `aus` are what the living characters do to the
/// mover, visited in the order `order`, each one's buffs in the order
/// `inner` gives: orders that hand out every character, and every buff,
/// once.
pub open spec fn near_outcome(
    mid: BattleDataView,
    fin: BattleDataView,
    aus: Seq<ActionUnitPt>,
    templates: &Templates,
    mover: u32,
    index: isize,
    both: bool,
    order: Seq<u32>,
    inner: Map<u32, Seq<u32>>,
) -> bool {
    &&& order.to_set() == mid.cters.dom()
    &&& order.no_duplicates()
    &&& forall|u: u32|
        #[trigger] mid.cters.contains_key(u) ==> inner.contains_key(u) && inner[u].to_set() == mid.cters[u].buffs.dom()
            && inner[u].no_duplicates()
    &&& (fin, aus.map_values(|a: ActionUnitPt| a@)) == others_fold(
        (mid, Seq::empty()),
        templates,
        mover,
        index,
        both,
        order,
        inner,
    )
}

/// The near offsets, added to the cell of any character, stay within the
/// range of cell positions.
pub open spec fn near_cells_in_range(v: BattleDataView, scopes: Seq<isize>) -> bool {
    forall|u: u32, j: int|
        #![trigger v.cters[u], scopes[j]]
        v.cters.contains_key(u) && 0 <= j < scopes.len() ==> isize::MIN <= (v.cters[u].map_cell_index as isize) as int
            + scopes[j] as int <= isize::MAX
}

impl BattleData {
    /// Player `user_id`'s character steps on cell `index`, and the traps of
    /// that cell spring on it, in the order in which the cell's buff table
    /// hands them out. Gives `None` where there is no such cell, else the
    /// reports of the traps that players set.
    #[verifier::loop_isolation(false)]
    pub fn trigger_trap(&mut self, templates: &Templates, user_id: u32, index: usize) -> (r: Option<Vec<ActionUnitPt>>)
        requires
            old(self)@.cters.contains_key(user_id),
        ensures
            index >= old(self)@.map_cells.len() ==> r is None && final(self)@ == old(self)@,
            index < old(self)@.map_cells.len() ==> {
                let buffs = old(self).tile_map.map_cells@[index as int].buffs;
                let order = vstd::std_specs::hash::spec_keys_iter(&buffs).remaining().unref();
                let res = trap_fold(
                    (old(self)@, Seq::empty()),
                    templates,
                    user_id,
                    index,
                    old(self)@.next_turn_index,
                    order.map_values(|k: u32| buffs@[k]),
                );
                &&& r is Some
                &&& final(self)@ == res.0
                &&& r.unwrap()@.map_values(|a: ActionUnitPt| a@) == res.1
            },
    {
        if index >= self.tile_map.map_cells.len() {
            return None;
        }
        let ghost v0 = self@;
        let mut au_v: Vec<ActionUnitPt> = Vec::new();
        let turn_index = self.next_turn_index;
        let buffs = self.tile_map.map_cells[index].buffs.clone();
        let ids = map_keys(&self.tile_map.map_cells[index].buffs);
        let ghost seqb = ids@.map_values(|k: u32| buffs@[k]);
        let bt = &templates.buff_types;
        let n = ids.len();
        assert(au_v@.map_values(|a: ActionUnitPt| a@) =~= Seq::<ActionUnitPtView>::empty());
        for i in 0..n
            invariant
                self@.cters.contains_key(user_id),
                self@.map_cells.len() == v0.map_cells.len(),
                (self@, au_v@.map_values(|a: ActionUnitPt| a@)) == trap_fold(
                    (v0, Seq::empty()),
                    templates,
                    user_id,
                    index,
                    turn_index,
                    seqb.take(i as int),
                ),
        {
            assert(ids@.to_set().contains(ids@[i as int]));
            let buff = *buffs.get(&ids[i]).unwrap();
            let buff_id = buff.id;
            let ghost st = (self@, au_v@.map_values(|a: ActionUnitPt| a@));
            proof {
                assert(seqb.take(i + 1).drop_last() =~= seqb.take(i as int));
                assert(seqb.take(i + 1).last() == buff);
            }
            if vec_contains(&bt.traps, buff_id) {
                let target_pt: Option<TargetPt> = if vec_contains(&bt.trap_add_buff, buff_id) {
                    let buff_id = buff.buff_temp.par1;
                    match templates.buffs.get(&buff_id) {
                        Some(t) => {
                            let buff_add = Buff::new(*t, Some(turn_index), None, None);
                            let mut cter = self.take_cter(user_id);
                            cter.battle_buffs.buffs.insert(buff.id, buff_add);
                            let mut target_pt_tmp = TargetPt::new();
                            target_pt_tmp.target_value.push(#[verifier::truncate] (cter.get_map_cell_index() as u32));
                            target_pt_tmp.add_buffs.push(buff_id);
                            self.put_cter(user_id, cter);
                            Some(target_pt_tmp)
                        },
                        None => None,
                    }
                } else if vec_contains(&bt.trap_skill_damage, buff_id) {
                    let skill_damage = #[verifier::truncate] (buff.buff_temp.par1 as i16);
                    self.deduct_hp(0, user_id, skill_damage)
                } else {
                    None
                };
                if let Some(mut target_pt) = target_pt {
                    if buff.from_user.is_some() {
                        let mut aup = ActionUnitPt::new();
                        let lost_buff = self.consume_buff(buff_id, None, Some(index));
                        if let Some(lost_buff) = lost_buff {
                            target_pt.lost_buffs.push(lost_buff);
                        }
                        aup.from_user = buff.from_user.unwrap();
                        aup.action_type = ActionType::Buff.into_u32();
                        aup.action_value.push(buff.id);
                        let ghost tpv = target_pt@;
                        aup.targets.push(target_pt);
                        assert(aup@.targets =~= seq![tpv]);
                        assert(aup@.action_value =~= seq![buff.id]);
                        let ghost prev = au_v@.map_values(|a: ActionUnitPt| a@);
                        let ghost av = aup@;
                        au_v.push(aup);
                        assert(au_v@.map_values(|a: ActionUnitPt| a@) =~= prev.push(av));
                    }
                }
            }
            proof {
                assert(self@ == trap_step(st, templates, user_id, index, turn_index, buff).0);
                assert(au_v@.map_values(|a: ActionUnitPt| a@) =~= trap_step(st, templates, user_id, index, turn_index, buff).1);
            }
        }
        assert(seqb.take(n as int) =~= seqb);
        Some(au_v)
    }

    /// The traps of the cell are sprung (their reports are dropped), then
    /// every living character's near-defense buffs hit the mover while it
    /// lives and stands near that character, unless the move swapped
    /// places. Characters and buffs act in the order their tables hand them
    /// out; the reports of the hits come back in that order.
    #[verifier::loop_isolation(false)]
    pub fn after_move_trigger(
        &mut self,
        templates: &Templates,
        user_id: u32,
        index: isize,
        is_change_index_both: bool,
    ) -> (r: Vec<ActionUnitPt>)
        requires
            old(self)@.cters.contains_key(user_id),
            near_cells_in_range(old(self)@, templates.buff_types.trigger_scope_near@),
        ensures
            ({
                let ti = index as usize;
                let cell_buffs = old(self).tile_map.map_cells@[ti as int].buffs;
                exists|mid: BattleDataView, order: Seq<u32>, inner: Map<u32, Seq<u32>>|
                    {
                        &&& mid == if ti < old(self)@.map_cells.len() {
                            trap_fold(
                                (old(self)@, Seq::empty()),
                                templates,
                                user_id,
                                ti,
                                old(self)@.next_turn_index,
                                vstd::std_specs::hash::spec_keys_iter(&cell_buffs).remaining().unref().map_values(
                                    |k: u32| cell_buffs@[k],
                                ),
                            ).0
                        } else {
                            old(self)@
                        }
                        &&& #[trigger] near_outcome(
                            mid,
                            final(self)@,
                            r@,
                            templates,
                            user_id,
                            index,
                            is_change_index_both,
                            order,
                            inner,
                        )
                    }
            }),
    {
        let ghost v0 = self@;
        let _ = self.trigger_trap(templates, user_id, #[verifier::truncate] (index as usize));
        let ghost mid = self@;
        proof {
            let ti = index as usize;
            let cell_buffs = old(self).tile_map.map_cells@[ti as int].buffs;
            assert(mid == if ti < v0.map_cells.len() {
                trap_fold(
                    (v0, Seq::empty()),
                    templates,
                    user_id,
                    ti,
                    v0.next_turn_index,
                    vstd::std_specs::hash::spec_keys_iter(&cell_buffs).remaining().unref().map_values(
                        |k: u32| cell_buffs@[k],
                    ),
                ).0
            } else {
                v0
            });
        }
        let r = self.near_defense_trigger(templates, user_id, index, is_change_index_both);
        proof {
            let (order, inner) = choose|order: Seq<u32>, inner: Map<u32, Seq<u32>>|
                #[trigger] near_outcome(mid, self@, r@, templates, user_id, index, is_change_index_both, order, inner);
            assert(near_outcome(mid, self@, r@, templates, user_id, index, is_change_index_both, order, inner));
        }
        r
    }

    /// Every living character's near-defense buffs hit player `user_id`'s
    /// character, which moved to cell `index`, while it lives and stands
    /// near that character, unless the move swapped places. Characters and
    /// buffs act in the order their tables hand them out; the reports of
    /// the hits come back in that order.
    #[verifier::loop_isolation(false)]
    #[verifier::rlimit(40)]
    fn near_defense_trigger(
        &mut self,
        templates: &Templates,
        user_id: u32,
        index: isize,
        is_change_index_both: bool,
    ) -> (r: Vec<ActionUnitPt>)
        ensures
            exists|order: Seq<u32>, inner: Map<u32, Seq<u32>>|
                #[trigger] near_outcome(
                    old(self)@,
                    final(self)@,
                    r@,
                    templates,
                    user_id,
                    index,
                    is_change_index_both,
                    order,
                    inner,
                ),
    {
        let mut v: Vec<ActionUnitPt> = Vec::new();
        let ghost mid = self@;
        let ids = map_keys(&self.battle_cter);
        let ghost mut gm: Map<u32, Seq<u32>> = Map::empty();
        let bt = &templates.buff_types;
        let scopes = &bt.trigger_scope_near;
        let n = ids.len();
        proof {
            assert(ids@.to_set() == mid.cters.dom());
            assert(v@.map_values(|a: ActionUnitPt| a@) =~= Seq::<ActionUnitPtView>::empty());
        }
        for i in 0..n
            invariant
                n == ids@.len(),
                ids@.to_set() == mid.cters.dom(),
                ids@.no_duplicates(),
                self@.cters.dom() == mid.cters.dom(),
                forall|u: u32|
                    #[trigger] mid.cters.contains_key(u) ==> self@.cters[u].buffs == mid.cters[u].buffs
                        && self@.cters[u].map_cell_index == mid.cters[u].map_cell_index
                        && self@.cters[u].base_attr.user_id == mid.cters[u].base_attr.user_id,
                forall|j: int|
                    0 <= j < i ==> gm.contains_key(#[trigger] ids@[j]) && gm[ids@[j]].to_set()
                        == mid.cters[ids@[j]].buffs.dom() && gm[ids@[j]].no_duplicates(),
                (self@, v@.map_values(|a: ActionUnitPt| a@)) == others_fold(
                    (mid, Seq::empty()),
                    templates,
                    user_id,
                    index,
                    is_change_index_both,
                    ids@.take(i as int),
                    gm,
                ),
        {
            let oid = ids[i];
            proof {
                assert(ids@.to_set().contains(oid));
            }
            let ghost before = (self@, v@.map_values(|a: ActionUnitPt| a@));
            let ghost gm0 = gm;
            let (alive, cter_index, other_uid, buffs, bids) = {
                let o = self.battle_cter.get(&oid).unwrap();
                (
                    !o.is_died(),
                    o.get_map_cell_index() as isize,
                    o.base_attr.user_id,
                    o.battle_buffs.buffs.clone(),
                    map_keys(&o.battle_buffs.buffs),
                )
            };
            proof {
                gm = gm.insert(oid, bids@);
                assert(!ids@.take(i as int).contains(oid)) by {
                    if ids@.take(i as int).contains(oid) {
                        let j = choose|j: int| 0 <= j < i && ids@.take(i as int)[j] == oid;
                        assert(ids@[j] == ids@[i as int]);
                    }
                }
                lemma_others_fold_inner(
                    (mid, Seq::empty()),
                    templates,
                    user_id,
                    index,
                    is_change_index_both,
                    ids@.take(i as int),
                    gm0,
                    gm,
                );
                assert(ids@.take(i + 1).drop_last() =~= ids@.take(i as int));
                assert(ids@.take(i + 1).last() == oid);
            }
            if alive {
                let m = bids.len();
                let mut k: usize = 0;
                let mut stop = false;
                while k < m && !stop
                    invariant
                        m == bids@.len(),
                        k <= m,
                        bids@.to_set() == buffs@.dom(),
                        buffs@ == mid.cters[oid].buffs,
                        self@.cters.dom() == mid.cters.dom(),
                        forall|u: u32|
                            #[trigger] mid.cters.contains_key(u) ==> self@.cters[u].buffs == mid.cters[u].buffs
                                && self@.cters[u].map_cell_index == mid.cters[u].map_cell_index
                                && self@.cters[u].base_attr.user_id == mid.cters[u].base_attr.user_id,
                        stop ==> !self@.has_cter(user_id, true),
                        (self@, v@.map_values(|a: ActionUnitPt| a@)) == defense_fold(
                            before,
                            templates,
                            user_id,
                            index,
                            is_change_index_both,
                            oid,
                            bids@.take(k as int),
                        ),
                    decreases m - k,
                {
                    assert(bids@.to_set().contains(bids@[k as int]));
                    let buff = *buffs.get(&bids[k]).unwrap();
                    let ghost st = (self@, v@.map_values(|a: ActionUnitPt| a@));
                    if vec_contains(&bt.defense_near_move_skill_damage, buff.id) && !is_change_index_both {
                        let damage = #[verifier::truncate] (buff.buff_temp.par1 as i16);
                        let mut hit = false;
                        let mut j: usize = 0;
                        while j < scopes.len() && !hit
                            invariant
                                j <= scopes@.len(),
                                !hit ==> (self@, v@.map_values(|a: ActionUnitPt| a@)) == st,
                                !hit ==> forall|jj: int|
                                    0 <= jj < j ==> (cter_index as int + scopes@[jj] as int != index as int
                                        || !st.0.has_cter(user_id, true)),
                                hit ==> (self@, v@.map_values(|a: ActionUnitPt| a@)) == defense_step(
                                    st,
                                    templates,
                                    user_id,
                                    index,
                                    is_change_index_both,
                                    oid,
                                    buff,
                                ),
                            decreases scopes@.len() - j,
                        {
                            assert(st.0.cters[oid].map_cell_index == mid.cters[oid].map_cell_index);
                            let res: i128 = cter_index as i128 + scopes[j] as i128;
                            if index as i128 == res {
                                match self.deduct_hp(other_uid, user_id, damage) {
                                    Some(target_pt) => {
                                        let mut aupt = ActionUnitPt::new();
                                        aupt.from_user = other_uid;
                                        aupt.action_type = ActionType::Buff.into_u32();
                                        aupt.action_value.push(buff.id);
                                        let ghost tpv = target_pt@;
                                        aupt.targets.push(target_pt);
                                        assert(aupt@.targets =~= seq![tpv]);
                                        assert(aupt@.action_value =~= seq![buff.id]);
                                        let ghost prev = v@.map_values(|a: ActionUnitPt| a@);
                                        let ghost av = aupt@;
                                        v.push(aupt);
                                        assert(v@.map_values(|a: ActionUnitPt| a@) =~= prev.push(av));
                                        assert(near(st.0.cters[oid].map_cell_index, index, scopes@));
                                        hit = true;
                                    },
                                    None => {},
                                }
                            }
                            j = j + 1;
                        }
                        proof {
                            if !hit {
                                if near(st.0.cters[oid].map_cell_index, index, scopes@) && st.0.has_cter(user_id, true) {
                                    let jj = choose|jj: int|
                                        0 <= jj < scopes@.len() && (st.0.cters[oid].map_cell_index as isize) as int
                                            + #[trigger] scopes@[jj] as int == index as int;
                                }
                            }
                        }
                        let died = match self.battle_cter.get(&user_id) {
                            Some(c) => c.is_died(),
                            None => false,
                        };
                        if died {
                            stop = true;
                        }
                    }
                    proof {
                        assert(bids@.take(k + 1).drop_last() =~= bids@.take(k as int));
                        assert(bids@.take(k + 1).last() == bids@[k as int]);
                        assert(st.0.cters[oid].buffs[bids@[k as int]] == buff);
                    }
                    k = k + 1;
                }
                proof {
                    if stop {
                        let rest = bids@.subrange(k as int, m as int);
                        lemma_defense_fold_dead(
                            (self@, v@.map_values(|a: ActionUnitPt| a@)),
                            templates,
                            user_id,
                            index,
                            is_change_index_both,
                            oid,
                            rest,
                        );
                        lemma_defense_fold_append(
                            before,
                            templates,
                            user_id,
                            index,
                            is_change_index_both,
                            oid,
                            bids@.take(k as int),
                            rest,
                        );
                        assert(bids@.take(k as int) + rest =~= bids@);
                    } else {
                        assert(bids@.take(k as int) =~= bids@);
                    }
                }
            }
            proof {
                assert(before.0.cters[oid].is_died() == !alive);
            }
        }
        proof {
            assert(ids@.take(n as int) =~= ids@);
            assert forall|u: u32| #[trigger] mid.cters.contains_key(u) implies gm.contains_key(u) && gm[u].to_set()
                == mid.cters[u].buffs.dom() && gm[u].no_duplicates() by {
                assert(ids@.to_set().contains(u));
                let j = choose|j: int| 0 <= j < ids@.len() && ids@[j] == u;
            }
            assert(near_outcome(
                mid,
                self@,
                v@,
                templates,
                user_id,
                index,
                is_change_index_both,
                ids@,
                gm,
            ));
        }
        v
    }

    /// Player `user_id`'s living character was attacked. Its buffs act in
    /// the order in which its buff table hands them out; what they do is
    /// reported in `target_pt`.
    #[verifier::loop_isolation(false)]
    pub fn attacked_buffs_trigger(&mut self, templates: &Templates, user_id: u32, target_pt: &mut TargetPt)
        requires
            old(self)@.has_cter(user_id, true),
        ensures
            ({
                let buffs = old(self).battle_cter@[user_id].battle_buffs.buffs;
                let order = vstd::std_specs::hash::spec_keys_iter(&buffs).remaining().unref();
                (final(self)@, final(target_pt)@) == attacked_fold(
                    (old(self)@, old(target_pt)@),
                    templates,
                    user_id,
                    order.map_values(|k: u32| buffs@[k]),
                    old(self)@.cters[user_id].base_attr.max_energy,
                )
            }),
    {
        let ghost v0 = self@;
        let ghost t0 = target_pt@;
        let (max_energy, buffs, ids) = {
            let cter = self.get_battle_cter(Some(user_id), true).unwrap();
            (cter.base_attr.max_energy, cter.battle_buffs.buffs.clone(), map_keys(&cter.battle_buffs.buffs))
        };
        let ghost seqb = ids@.map_values(|k: u32| buffs@[k]);
        let change_skill = &templates.buff_types.change_skill;
        let add_energy = &templates.buff_types.attacked_add_energy;
        let n = ids.len();
        for i in 0..n
            invariant
                n == ids@.len(),
                ids@.to_set() == buffs@.dom(),
                seqb == ids@.map_values(|k: u32| buffs@[k]),
                self@.cters.contains_key(user_id),
                (self@, target_pt@) == attacked_fold((v0, t0), templates, user_id, seqb.take(i as int), max_energy),
        {
            assert(ids@.to_set().contains(ids@[i as int]));
            let buff = *buffs.get(&ids[i]).unwrap();
            let buff_id = buff.id;
            let ghost st = (self@, target_pt@);
            if vec_contains(change_skill, buff_id) {
                self.consume_buff(buff_id, Some(user_id), None);
                target_pt.lost_buffs.push(buff_id);
            }
            if vec_contains(add_energy, buff_id) && max_energy > 0 {
                let tep = TriggerEffectPt {
                    field_type: EffectType::AddEnergy.into_u32(),
                    buff_id,
                    value: buff.buff_temp.par1,
                };
                let mut cter = self.take_cter(user_id);
                cter.add_energy(#[verifier::truncate] (buff.buff_temp.par1 as i8));
                self.put_cter(user_id, cter);
                target_pt.passive_effect.push(tep);
            }
            proof {
                assert(seqb.take(i + 1).drop_last() =~= seqb.take(i as int));
                assert(seqb.take(i + 1).last() == buff);
                assert(target_pt@ =~= attacked_step(st, templates, user_id, buff, max_energy).1);
                assert(self@ =~= attacked_step(st, templates, user_id, buff, max_energy).0);
            }
        }
        assert(seqb.take(n as int) =~= seqb);
    }

    /// Before the board is refreshed: every skill whose locking buff lies on
    /// a cell of the board becomes inactive.
    #[verifier::spinoff_prover]
    #[verifier::rlimit(30)]
    pub fn before_map_refresh_buff_trigger(&mut self, templates: &Templates)
        requires
            locks_name_skills(old(self)@, templates.buff_types.locked),
        ensures
            final(self)@ == refreshed(old(self)@, old(self)@.map_cells, templates.buff_types.locked),
    {
        let locked = templates.buff_types.locked;
        let n = self.tile_map.map_cells.len();
        let ghost v = self@;
        proof {
            assert(refreshed(v, v.map_cells.take(0), locked) =~= v) by {
                assert forall|u: u32| #[trigger] v.cters.contains_key(u) implies unlock_skills(
                    v.cters[u],
                    u,
                    v.map_cells.take(0),
                    locked,
                ) == v.cters[u] by {
                    assert(unlock_skills(v.cters[u], u, v.map_cells.take(0), locked).skills =~= v.cters[u].skills);
                    assert(unlock_skills(v.cters[u], u, v.map_cells.take(0), locked) =~= v.cters[u]);
                }
                assert(refreshed(v, v.map_cells.take(0), locked).cters =~= v.cters);
            }
        }
        for i in 0..n
            invariant
                n == v.map_cells.len(),
                self@ == refreshed(v, v.map_cells.take(i as int), locked),
                locks_name_skills(v, locked),
        {
            let ghost before = self@;
            let ghost mut changed: Option<(u32, u32)> = None;
            proof {
                assert(before.map_cells == v.map_cells);
                assert(self.tile_map.map_cells@[i as int]@ == v.map_cells[i as int]);
            }
            let lock = self.tile_map.map_cells[i].buffs.get(&locked);
            let found: Option<(u32, u32)> = match lock {
                None => None,
                Some(buff) => match buff.from_user {
                    None => None,
                    Some(from_user) => {
                        assert(v.map_cells[i as int].buffs.contains_key(locked));
                        Some((from_user, buff.from_skill.unwrap()))
                    },
                },
            };
            if let Some((from_user, from_skill)) = found {
                let has = match self.battle_cter.get(&from_user) {
                    Some(c) => c.skills.contains_key(&from_skill),
                    None => false,
                };
                if has {
                    let mut cter = self.take_cter(from_user);
                    let mut skill = *cter.skills.get(&from_skill).unwrap();
                    skill.is_active = false;
                    cter.skills.insert(from_skill, skill);
                    self.put_cter(from_user, cter);
                    proof {
                        changed = Some((from_user, from_skill));
                        let bc = before.cters[from_user];
                        assert(self@ == before.set_cter(
                            from_user,
                            BattleCharacterView {
                                skills: bc.skills.insert(from_skill, Skill { is_active: false, ..bc.skills[from_skill] }),
                                ..bc
                            },
                        ));
                    }
                }
            }
            proof {
                if changed is None {
                    assert(self@ == before);
                }
                let ci = v.map_cells.take(i as int);
                let cn = v.map_cells.take(i + 1);
                let cell = v.map_cells[i as int];
                assert forall|u: u32, s: u32|
                    #![trigger locked_by(cn, locked, u, s)]
                    locked_by(cn, locked, u, s) == (locked_by(ci, locked, u, s) || locks(cell, locked, u, s)) by {
                    if locked_by(cn, locked, u, s) {
                        let j = choose|j: int| 0 <= j < cn.len() && locks(#[trigger] cn[j], locked, u, s);
                        if j < i {
                            assert(ci[j] == cn[j]);
                        } else {
                            assert(cn[j] == cell);
                        }
                    }
                    if locked_by(ci, locked, u, s) {
                        let j = choose|j: int| 0 <= j < ci.len() && locks(#[trigger] ci[j], locked, u, s);
                        assert(cn[j] == ci[j]);
                    }
                    if locks(cell, locked, u, s) {
                        assert(cn[i as int] == cell);
                    }
                }
                assert forall|u: u32, s: u32| #[trigger] locks(cell, locked, u, s) implies found == Some((u, s)) by {}
                let target = refreshed(v, cn, locked);
                assert forall|u: u32| #[trigger] target.cters.contains_key(u) implies self@.cters.contains_key(u)
                    && self@.cters[u] == target.cters[u] by {
                    let tc = target.cters[u];
                    assert forall|sk: u32| #[trigger] tc.skills.contains_key(sk) implies self@.cters[u].skills.contains_key(sk)
                        && self@.cters[u].skills[sk] == tc.skills[sk] by {
                        assert(before.cters.contains_key(u));
                        assert(before.cters[u].skills.contains_key(sk));
                        if changed == Some((u, sk)) {
                            assert(locks(cell, locked, u, sk));
                            assert(locked_by(cn, locked, u, sk));
                        } else if locks(cell, locked, u, sk) {
                            assert(found == Some((u, sk)));
                            assert(locked_by(cn, locked, u, sk));
                        } else {
                            assert(locked_by(cn, locked, u, sk) == locked_by(ci, locked, u, sk));
                            if let Some((fu, fs)) = changed {
                                if fu == u {
                                    assert(fs != sk);
                                }
                            }
                        }
                    }
                    assert(self@.cters[u].skills =~= tc.skills);
                    assert(self@.cters[u] =~= tc);
                }
                assert forall|u: u32| #[trigger] self@.cters.contains_key(u) implies target.cters.contains_key(u) by {
                    if let Some((fu, fs)) = changed {
                        assert(before.cters.contains_key(fu));
                    }
                    assert(before.cters.contains_key(u));
                }
                assert(self@.cters =~= target.cters);
                assert(self@ =~= target);
            }
        }
        assert(v.map_cells.take(n as int) =~= v.map_cells);
    }

    /// Player `user_id` used skill `skill_id` (an item's skill where
    /// `is_item`). The water turret is replaced by the skill its template
    /// names, reported in `au`; a skill of limited use is noted as used.
    pub fn after_use_skill_trigger(
        &mut self,
        templates: &Templates,
        user_id: u32,
        skill_id: u32,
        is_item: bool,
        au: &mut ActionUnitPt,
    )
        requires
            after_use_skill_ok(old(self)@, templates, user_id, skill_id, is_item),
        ensures
            ({
                let v = old(self)@;
                let c = v.cters[user_id];
                let sk = used_skill(v, templates, user_id, skill_id, is_item);
                let st = templates.skills@[sk.skill_temp.par2];
                if !v.has_cter(user_id, true) || (is_item && !templates.skills@.contains_key(skill_id)) {
                    final(self)@ == v && final(au)@ == old(au)@
                } else if sk.id == templates.buff_types.water_turret {
                    let c2 = BattleCharacterView { skills: c.skills.remove(skill_id), ..c };
                    if !templates.skills@.contains_key(sk.skill_temp.par2) {
                        final(self)@ == v.set_cter(user_id, c2) && final(au)@ == old(au)@
                    } else {
                        &&& final(self)@ == v.set_cter(
                            user_id,
                            note_limited(
                                BattleCharacterView { skills: c2.skills.insert(st.id, fresh_skill(st)), ..c2 },
                                templates,
                                skill_id,
                            ),
                        )
                        &&& final(au)@ == (ActionUnitPtView {
                            targets: old(au)@.targets.push(
                                TargetPtView {
                                    target_value: seq![c.map_cell_index as u32],
                                    lost_buffs: seq![skill_id],
                                    effects: seq![EffectPt { effect_type: EffectType::AddSkill.code(), effect_value: st.par2 }],
                                    ..TargetPtView::empty()
                                },
                            ),
                            ..old(au)@
                        })
                    }
                } else {
                    final(self)@ == v.set_cter(user_id, note_limited(c, templates, skill_id)) && final(au)@
                        == old(au)@
                }
            }),
    {
        if self.get_battle_cter(Some(user_id), true).is_none() {
            return;
        }
        let skill: Skill = if is_item {
            match templates.skills.get(&skill_id) {
                Some(t) => Skill::from_temp(*t),
                None => return,
            }
        } else {
            *self.battle_cter.get(&user_id).unwrap().skills.get(&skill_id).unwrap()
        };
        let mut cter = self.take_cter(user_id);
        if skill.id == templates.buff_types.water_turret {
            let skill_temp = templates.skills.get(&skill.skill_temp.par2);
            cter.skills.remove(&skill_id);
            let st = match skill_temp {
                Some(t) => *t,
                None => {
                    self.put_cter(user_id, cter);
                    return;
                },
            };
            let mut target_pt = TargetPt::new();
            target_pt.target_value.push(cter.get_map_cell_index() as u32);
            target_pt.lost_buffs.push(skill_id);
            target_pt.effects.push(EffectPt { effect_type: EffectType::AddSkill.into_u32(), effect_value: st.par2 });
            let new_skill = Skill::from_temp(st);
            cter.skills.insert(new_skill.id, new_skill);
            proof {
                assert(target_pt@ =~= TargetPtView {
                    target_value: seq![old(self)@.cters[user_id].map_cell_index as u32],
                    lost_buffs: seq![skill_id],
                    effects: seq![EffectPt { effect_type: EffectType::AddSkill.code(), effect_value: st.par2 }],
                    ..TargetPtView::empty()
                });
            }
            let ghost tp = target_pt@;
            au.targets.push(target_pt);
            assert(au@.targets =~= old(au)@.targets.push(tp));
        }
        let skill_temp = templates.skills.get(&skill_id).unwrap();
        if skill_temp.skill_judge == templates.buff_types.limit_turn_times {
            cter.flow_data.turn_limit_skills.push(skill_id);
        } else if skill_temp.skill_judge == templates.buff_types.limit_round_times {
            cter.flow_data.turn_limit_skills.push(skill_id);
        }
        self.put_cter(user_id, cter);
    }
}

} // verus!

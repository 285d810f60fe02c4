//! Properties of the battle triggers, over the outcomes their contracts
//! name.

use crate::action::ActionUnitPt;
use crate::action::{ActionUnitPtView, TargetPtView};
use crate::battle::{BattleDataView, Buff};
use crate::battle_trigger::{attacked_fold, attacked_step, defense_fold, near_outcome, others_fold, trap_step};
use crate::templates::Templates;
use vstd::prelude::*;

verus! {

/// Buffs of `other` that are no near-defense buffs leave the battle alone.
proof fn lemma_defense_fold_idle(
    st: (BattleDataView, Seq<ActionUnitPtView>),
    templates: &Templates,
    mover: u32,
    index: isize,
    both: bool,
    other: u32,
    bs: Seq<u32>,
)
    requires
        forall|j: int|
            0 <= j < bs.len() ==> st.0.cters[other].buffs.contains_key(#[trigger] bs[j])
                && !templates.buff_types.defense_near_move_skill_damage@.contains(st.0.cters[other].buffs[bs[j]].id),
    ensures
        defense_fold(st, templates, mover, index, both, other, bs) == st,
    decreases bs.len(),
{
    if bs.len() > 0 {
        let front = bs.drop_last();
        assert forall|j: int| 0 <= j < front.len() implies st.0.cters[other].buffs.contains_key(#[trigger] front[j])
            && !templates.buff_types.defense_near_move_skill_damage@.contains(st.0.cters[other].buffs[front[j]].id) by {
            assert(front[j] == bs[j]);
        }
        lemma_defense_fold_idle(st, templates, mover, index, both, other, front);
        assert(bs.last() == bs[bs.len() - 1]);
    }
}

/// Characters that are dead, or hold no near-defense buff, leave the battle
/// alone.
proof fn lemma_others_fold_idle(
    st: (BattleDataView, Seq<ActionUnitPtView>),
    templates: &Templates,
    mover: u32,
    index: isize,
    both: bool,
    os: Seq<u32>,
    inner: Map<u32, Seq<u32>>,
)
    requires
        forall|j: int|
            0 <= j < os.len() && !st.0.cters[#[trigger] os[j]].is_died() ==> forall|k: u32|
                inner[os[j]].contains(k) ==> st.0.cters[os[j]].buffs.contains_key(k)
                    && !templates.buff_types.defense_near_move_skill_damage@.contains(
                    st.0.cters[os[j]].buffs[k].id,
                ),
    ensures
        others_fold(st, templates, mover, index, both, os, inner) == st,
    decreases os.len(),
{
    if os.len() > 0 {
        let front = os.drop_last();
        assert forall|j: int| 0 <= j < front.len() && !st.0.cters[#[trigger] front[j]].is_died() implies forall|k: u32|
            inner[front[j]].contains(k) ==> st.0.cters[front[j]].buffs.contains_key(k)
                && !templates.buff_types.defense_near_move_skill_damage@.contains(
                st.0.cters[front[j]].buffs[k].id,
            ) by {
            assert(front[j] == os[j]);
        }
        lemma_others_fold_idle(st, templates, mover, index, both, front, inner);
        let o = os.last();
        assert(o == os[os.len() - 1]);
        if !st.0.cters[o].is_died() {
            let bs = inner[o];
            assert forall|j: int| 0 <= j < bs.len() implies st.0.cters[o].buffs.contains_key(#[trigger] bs[j])
                && !templates.buff_types.defense_near_move_skill_damage@.contains(st.0.cters[o].buffs[bs[j]].id) by {
                assert(bs.contains(bs[j]));
            }
            lemma_defense_fold_idle(st, templates, mover, index, both, o, bs);
        }
    }
}

/// A dead character deals no near-defense damage: where every character
/// that holds a near-defense buff is dead, the hits that follow a move leave
/// the battle as the traps left it and give no report.
pub proof fn lemma_dead_characters_do_not_defend(
    mid: BattleDataView,
    fin: BattleDataView,
    aus: Seq<ActionUnitPt>,
    templates: &Templates,
    mover: u32,
    index: isize,
    both: bool,
    order: Seq<u32>,
    inner: Map<u32, Seq<u32>>,
)
    requires
        near_outcome(mid, fin, aus, templates, mover, index, both, order, inner),
        forall|u: u32, k: u32|
            mid.cters.contains_key(u) && #[trigger] mid.cters[u].buffs.contains_key(k)
                && templates.buff_types.defense_near_move_skill_damage@.contains(mid.cters[u].buffs[k].id)
                ==> mid.cters[u].is_died(),
    ensures
        fin == mid,
        aus.len() == 0,
{
    let st = (mid, Seq::<ActionUnitPtView>::empty());
    assert forall|j: int| 0 <= j < order.len() && !st.0.cters[#[trigger] order[j]].is_died() implies forall|k: u32|
        inner[order[j]].contains(k) ==> st.0.cters[order[j]].buffs.contains_key(k)
            && !templates.buff_types.defense_near_move_skill_damage@.contains(
            st.0.cters[order[j]].buffs[k].id,
        ) by {
        let u = order[j];
        assert(order.to_set().contains(u));
        assert(mid.cters.contains_key(u));
        assert forall|k: u32| inner[u].contains(k) implies mid.cters[u].buffs.contains_key(k)
            && !templates.buff_types.defense_near_move_skill_damage@.contains(mid.cters[u].buffs[k].id) by {
            assert(inner[u].to_set().contains(k));
        }
    }
    lemma_others_fold_idle(st, templates, mover, index, both, order, inner);
    assert(aus.map_values(|a: ActionUnitPt| a@).len() == 0);
}

/// A trap that a player set and that takes effect is consumed: it leaves the
/// cell it lay on, and the one report of it, which names the player and the
/// trap, lists the trap among the lost buffs. So it holds for a trap that
/// adds a buff as for one that deals damage.
pub proof fn lemma_set_trap_is_consumed(
    st: (BattleDataView, Seq<ActionUnitPtView>),
    templates: &Templates,
    user: u32,
    index: usize,
    turn_index: usize,
    b: Buff,
)
    requires
        b.from_user is Some,
        templates.buff_types.traps@.contains(b.id),
        index < st.0.map_cells.len(),
        st.0.map_cells[index as int].buffs.contains_key(b.id),
        (templates.buff_types.trap_add_buff@.contains(b.id) && templates.buffs@.contains_key(b.buff_temp.par1))
            || (!templates.buff_types.trap_add_buff@.contains(b.id)
            && templates.buff_types.trap_skill_damage@.contains(b.id) && st.0.has_cter(user, true)),
    ensures
        ({
            let r = trap_step(st, templates, user, index, turn_index, b);
            &&& r.0.map_cells.len() == st.0.map_cells.len()
            &&& !r.0.map_cells[index as int].buffs.contains_key(b.id)
            &&& r.1.len() == st.1.len() + 1
            &&& r.1.take(st.1.len() as int) == st.1
            &&& r.1.last().from_user == b.from_user.unwrap()
            &&& r.1.last().action_value == seq![b.id]
            &&& r.1.last().targets.len() == 1
            &&& r.1.last().targets[0].lost_buffs.contains(b.id)
        }),
{
    let r = trap_step(st, templates, user, index, turn_index, b);
    let tp = r.1.last().targets[0];
    assert(tp.lost_buffs.last() == b.id);
    assert(tp.lost_buffs.contains(b.id)) by {
        assert(tp.lost_buffs[tp.lost_buffs.len() - 1] == b.id);
    }
    assert(r.1.take(st.1.len() as int) =~= st.1);
}

/// A trap that nobody set stays on its cell and is not reported.
pub proof fn lemma_unset_trap_stays(
    st: (BattleDataView, Seq<ActionUnitPtView>),
    templates: &Templates,
    user: u32,
    index: usize,
    turn_index: usize,
    b: Buff,
)
    requires
        b.from_user is None,
    ensures
        trap_step(st, templates, user, index, turn_index, b).0.map_cells == st.0.map_cells,
        trap_step(st, templates, user, index, turn_index, b).1 == st.1,
{
}

/// A character that is attacked and holds one attacked-add-energy buff, and
/// can hold energy, gains exactly the buff's energy once: its energy becomes
/// the old energy plus the buff's first parameter (read as a signed byte),
/// kept between 0 and the character's maximum. The report names the buff
/// and that parameter.
pub proof fn lemma_attacked_energy_once(
    st: (BattleDataView, TargetPtView),
    templates: &Templates,
    user: u32,
    b: Buff,
    max_energy: u8,
)
    requires
        st.0.cters.contains_key(user),
        templates.buff_types.attacked_add_energy@.contains(b.id),
        !templates.buff_types.change_skill@.contains(b.id),
        max_energy > 0,
    ensures
        ({
            let c = st.0.cters[user];
            let e = c.base_attr.energy as int;
            let m = c.base_attr.max_energy as int;
            let p = (b.buff_temp.par1 as i8) as int;
            let r = attacked_fold(st, templates, user, seq![b], max_energy);
            &&& r.0.cters.dom() == st.0.cters.dom()
            &&& r.0.cters[user].base_attr.energy as int == if e + p < 0 {
                0
            } else if e + p > m {
                m
            } else {
                e + p
            }
            &&& 0 <= p ==> r.0.cters[user].base_attr.energy as int == if e + p < m { e + p } else { m }
            &&& r.0.cters[user].base_attr.hp == c.base_attr.hp
            &&& r.0.cters[user].base_attr.max_energy == c.base_attr.max_energy
            &&& r.0.cters[user].buffs == c.buffs
            &&& r.1.passive_effect.len() == st.1.passive_effect.len() + 1
            &&& r.1.passive_effect.last().buff_id == b.id
            &&& r.1.passive_effect.last().value == b.buff_temp.par1
        }),
{
    let s1 = seq![b];
    assert(s1.drop_last() =~= Seq::<Buff>::empty());
    assert(s1.last() == b);
    assert(attacked_fold(st, templates, user, Seq::<Buff>::empty(), max_energy) == st);
    let r = attacked_fold(st, templates, user, s1, max_energy);
    assert(r == attacked_step(st, templates, user, b, max_energy));
    assert(r.0.cters.dom() =~= st.0.cters.dom());
}

} // verus!

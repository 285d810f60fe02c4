//! Rooms, their members and the characters the members play.

use crate::battle::{BattleCharacter, BattleData};
use crate::collections::{map_keys, vec_contains};
use crate::protocol::Refusal;
use std::collections::HashMap;
use vstd::prelude::*;

verus! {

broadcast use vstd::std_specs::hash::group_hash_axioms;

/// The most players a room holds.
pub const MEMBER_MAX: u8 = 4;

/// The lowest team id.
pub const TEAM_ID_MIN: u32 = 1;

/// The highest team id.
pub const TEAM_ID_MAX: u32 = 4;

#[derive(Clone, Copy, Debug, PartialEq, Eq, Structural)]
pub enum RoomType {
    NoType,
    Custom,
    Match,
    SeasonPve,
    WorldBossPve,
}

impl RoomType {
    pub open spec fn code(self) -> u8 {
        match self {
            RoomType::NoType => 0,
            RoomType::Custom => 1,
            RoomType::Match => 2,
            RoomType::SeasonPve => 3,
            RoomType::WorldBossPve => 4,
        }
    }

    pub open spec fn from_code(v: u8) -> Option<RoomType> {
        if v == 0 {
            Some(RoomType::NoType)
        } else if v == 1 {
            Some(RoomType::Custom)
        } else if v == 2 {
            Some(RoomType::Match)
        } else if v == 3 {
            Some(RoomType::SeasonPve)
        } else if v == 4 {
            Some(RoomType::WorldBossPve)
        } else {
            None
        }
    }

    pub fn into_u8(self) -> (r: u8)
        ensures
            r == self.code(),
    {
        match self {
            RoomType::NoType => 0,
            RoomType::Custom => 1,
            RoomType::Match => 2,
            RoomType::SeasonPve => 3,
            RoomType::WorldBossPve => 4,
        }
    }

    pub fn into_u32(self) -> (r: u32)
        ensures
            r == self.code(),
    {
        self.into_u8() as u32
    }

    /// The room type with code `v`, if there is one.
    pub fn try_from_u8(v: u8) -> (r: Option<RoomType>)
        ensures
            r == RoomType::from_code(v),
            r matches Some(t) ==> t.code() == v,
    {
        if v == 0 {
            Some(RoomType::NoType)
        } else if v == 1 {
            Some(RoomType::Custom)
        } else if v == 2 {
            Some(RoomType::Match)
        } else if v == 3 {
            Some(RoomType::SeasonPve)
        } else if v == 4 {
            Some(RoomType::WorldBossPve)
        } else {
            None
        }
    }
}

#[derive(Clone, Copy, Debug, PartialEq, Eq, Structural)]
pub enum BattleType {
    NoBattle,
    OneVOneVOneVOne,
    TwoVTwo,
    OneVOne,
}

impl BattleType {
    pub open spec fn code(self) -> u8 {
        match self {
            BattleType::NoBattle => 0,
            BattleType::OneVOneVOneVOne => 1,
            BattleType::TwoVTwo => 2,
            BattleType::OneVOne => 3,
        }
    }

    pub open spec fn from_code(v: u8) -> Option<BattleType> {
        if v == 0 {
            Some(BattleType::NoBattle)
        } else if v == 1 {
            Some(BattleType::OneVOneVOneVOne)
        } else if v == 2 {
            Some(BattleType::TwoVTwo)
        } else if v == 3 {
            Some(BattleType::OneVOne)
        } else {
            None
        }
    }

    pub fn into_u8(self) -> (r: u8)
        ensures
            r == self.code(),
    {
        match self {
            BattleType::NoBattle => 0,
            BattleType::OneVOneVOneVOne => 1,
            BattleType::TwoVTwo => 2,
            BattleType::OneVOne => 3,
        }
    }

    /// The battle type with code `v`, if there is one.
    pub fn try_from_u8(v: u8) -> (r: Option<BattleType>)
        ensures
            r == BattleType::from_code(v),
            r matches Some(t) ==> t.code() == v,
    {
        if v == 0 {
            Some(BattleType::NoBattle)
        } else if v == 1 {
            Some(BattleType::OneVOneVOneVOne)
        } else if v == 2 {
            Some(BattleType::TwoVTwo)
        } else if v == 3 {
            Some(BattleType::OneVOne)
        } else {
            None
        }
    }
}

/// Whether a member is ready to start.
#[derive(Clone, Copy, Debug, PartialEq, Eq, Structural)]
pub enum MemberState {
    NotReady,
    Ready,
}

impl MemberState {
    pub open spec fn code(self) -> u8 {
        match self {
            MemberState::NotReady => 0,
            MemberState::Ready => 1,
        }
    }

    pub fn into_u8(self) -> (r: u8)
        ensures
            r == self.code(),
    {
        match self {
            MemberState::NotReady => 0,
            MemberState::Ready => 1,
        }
    }
}

#[derive(Clone, Copy, Debug, PartialEq, Eq, Structural)]
pub enum RoomState {
    /// Players join, choose characters and get ready.
    Await,
    /// Players pick their turn order.
    ChoiceTurn,
    /// Players pick their starting cells.
    ChoiceIndex,
    BattleStarted,
    BattleOvered,
}

/// What a room-setting request changes.
#[derive(Clone, Copy, Debug, PartialEq, Eq, Structural)]
pub enum RoomSettingType {
    Unknown,
    IsOpenAI,
    SeasonId,
    TurnLimitTime,
}

impl RoomSettingType {
    pub open spec fn spec_from(v: u32) -> RoomSettingType {
        if v == 1 {
            RoomSettingType::IsOpenAI
        } else if v == 2 {
            RoomSettingType::SeasonId
        } else if v == 3 {
            RoomSettingType::TurnLimitTime
        } else {
            RoomSettingType::Unknown
        }
    }

    pub fn from_u32(v: u32) -> (r: RoomSettingType)
        ensures
            r == RoomSettingType::spec_from(v),
    {
        if v == 1 {
            RoomSettingType::IsOpenAI
        } else if v == 2 {
            RoomSettingType::SeasonId
        } else if v == 3 {
            RoomSettingType::TurnLimitTime
        } else {
            RoomSettingType::Unknown
        }
    }
}

#[derive(Clone, Copy, Debug, PartialEq, Eq, Structural)]
pub struct RoomSetting {
    pub battle_type: BattleType,
    pub is_open_ai: bool,
    pub season_id: u32,
    pub turn_limit_time: u32,
}

/// A character a player owns or has chosen.
pub struct Character {
    pub cter_id: u32,
    pub grade: u32,
    pub skills: Vec<u32>,
}

#[verifier::ext_equal]
pub struct CharacterView {
    pub cter_id: u32,
    pub grade: u32,
    pub skills: Seq<u32>,
}

impl View for Character {
    type V = CharacterView;

    open spec fn view(&self) -> CharacterView {
        CharacterView { cter_id: self.cter_id, grade: self.grade, skills: self.skills@ }
    }
}

impl Character {
    /// The empty choice: no character, no skills.
    pub open spec fn spec_default() -> CharacterView {
        CharacterView { cter_id: 0, grade: 0, skills: Seq::empty() }
    }

    pub fn new_default() -> (c: Character)
        ensures
            c@ == Character::spec_default(),
    {
        Character { cter_id: 0, grade: 0, skills: Vec::new() }
    }

    pub fn duplicate(&self) -> (c: Character)
        ensures
            c@ == self@,
    {
        Character { cter_id: self.cter_id, grade: self.grade, skills: self.skills.clone() }
    }
}

/// A player in a room.
pub struct Member {
    pub user_id: u32,
    /// A `MemberState` code.
    pub state: u8,
    pub team_id: u8,
    pub chose_cter: Character,
    /// The characters the player owns, by id.
    pub cters: HashMap<u32, Character>,
}

#[verifier::ext_equal]
pub struct MemberView {
    pub user_id: u32,
    pub state: u8,
    pub team_id: u8,
    pub chose_cter: CharacterView,
    pub cters: Map<u32, CharacterView>,
}

impl View for Member {
    type V = MemberView;

    open spec fn view(&self) -> MemberView {
        MemberView {
            user_id: self.user_id,
            state: self.state,
            team_id: self.team_id,
            chose_cter: self.chose_cter@,
            cters: self.cters@.map_values(|c: Character| c@),
        }
    }
}

/// A room: its members, its settings and the battle played in it.
pub struct Room {
    pub room_id: u32,
    pub room_type: RoomType,
    pub owner_id: u32,
    pub state: RoomState,
    pub setting: RoomSetting,
    pub members: HashMap<u32, Member>,
    pub battle_data: BattleData,
}

#[verifier::ext_equal]
pub struct RoomView {
    pub room_id: u32,
    pub room_type: RoomType,
    pub owner_id: u32,
    pub state: RoomState,
    pub setting: RoomSetting,
    pub members: Map<u32, MemberView>,
    pub battle_data: BattleData,
}

impl View for Room {
    type V = RoomView;

    open spec fn view(&self) -> RoomView {
        RoomView {
            room_id: self.room_id,
            room_type: self.room_type,
            owner_id: self.owner_id,
            state: self.state,
            setting: self.setting,
            members: self.members@.map_values(|m: Member| m@),
            battle_data: self.battle_data,
        }
    }
}

impl RoomView {
    /// Every member is filed under its own user id.
    pub open spec fn wf(self) -> bool {
        &&& self.members.dom().finite()
        &&& forall|u: u32| #[trigger] self.members.contains_key(u) ==> self.members[u].user_id == u
    }

    pub open spec fn is_started(self) -> bool {
        self.state != RoomState::Await
    }

    pub open spec fn set_member(self, uid: u32, m: MemberView) -> RoomView {
        RoomView { members: self.members.insert(uid, m), ..self }
    }

    /// A room just opened: waiting, with `owner` as owner and only member,
    /// default settings for battle type `bt`, and no battle yet.
    pub open spec fn is_fresh(self, id: u32, t: RoomType, owner: MemberView, bt: BattleType) -> bool {
        &&& self.room_id == id
        &&& self.room_type == t
        &&& self.owner_id == owner.user_id
        &&& self.state == RoomState::Await
        &&& self.setting == RoomSetting { battle_type: bt, is_open_ai: false, season_id: 0, turn_limit_time: 0 }
        &&& self.members == Map::<u32, MemberView>::empty().insert(owner.user_id, owner)
        &&& self.battle_data.is_empty()
    }

    pub open spec fn without_member(self, uid: u32) -> RoomView {
        RoomView { members: self.members.remove(uid), ..self }
    }

    pub open spec fn all_ready(self) -> bool {
        forall|u: u32| #[trigger] self.members.contains_key(u) ==> self.members[u].state
            == MemberState::Ready.code()
    }

    /// Whether it is player `uid`'s turn to pick its turn order.
    pub open spec fn can_choice_turn_now(self, uid: u32) -> bool {
        &&& self.state == RoomState::ChoiceTurn
        &&& self.battle_data.next_choice_index < self.battle_data.choice_orders@.len()
        &&& self.battle_data.choice_orders@[self.battle_data.next_choice_index as int] == uid
    }

    /// Whether it is player `uid`'s turn to pick its starting cell.
    pub open spec fn can_choice_index_now(self, uid: u32) -> bool {
        self.state == RoomState::ChoiceIndex && self.battle_data.is_turn_of(uid)
    }

    /// Whether some member has chosen character `cter_id`.
    pub open spec fn character_taken(self, cter_id: u32) -> bool {
        exists|u: u32|
            #[trigger] self.members.contains_key(u) && self.members[u].chose_cter.cter_id == cter_id
    }
}

pub proof fn lemma_map_values_insert<K, V, W>(m: Map<K, V>, k: K, v: V, f: spec_fn(V) -> W)
    ensures
        m.insert(k, v).map_values(f) == m.map_values(f).insert(k, f(v)),
{
    assert(m.insert(k, v).map_values(f) =~= m.map_values(f).insert(k, f(v)));
}

pub proof fn lemma_map_values_remove<K, V, W>(m: Map<K, V>, k: K, f: spec_fn(V) -> W)
    ensures
        m.remove(k).map_values(f) == m.map_values(f).remove(k),
{
    assert(m.remove(k).map_values(f) =~= m.map_values(f).remove(k));
}

impl Room {
    /// Opens room `id` of type `t` with `owner` as its only member.
    pub fn new(id: u32, t: RoomType, owner: Member, bt: BattleType) -> (r: Room)
        ensures
            r@.is_fresh(id, t, owner@, bt),
    {
        let owner_id = owner.user_id;
        let mut members: HashMap<u32, Member> = HashMap::new();
        members.insert(owner_id, owner);
        let r = Room {
            room_id: id,
            room_type: t,
            owner_id,
            state: RoomState::Await,
            setting: RoomSetting { battle_type: bt, is_open_ai: false, season_id: 0, turn_limit_time: 0 },
            members,
            battle_data: BattleData::new(),
        };
        assert(r@.members =~= Map::<u32, MemberView>::empty().insert(owner_id, owner@));
        r
    }

    /// How many members the room has.
    pub fn member_count(&self) -> (r: usize)
        ensures
            r == self@.members.len(),
    {
        assert(self@.members.dom() =~= self.members@.dom());
        self.members.len()
    }

    /// Adds `member` to the room, filed under its user id, if the room has a
    /// free place and does not hold that player yet.
    pub fn add_member(&mut self, member: Member) -> (r: Result<u32, Refusal>)
        ensures
            (old(self)@.members.contains_key(member.user_id) || old(self)@.members.len() >= MEMBER_MAX)
                ==> r == Err::<u32, Refusal>(Refusal::JoinFailed) && final(self)@ == old(self)@,
            !(old(self)@.members.contains_key(member.user_id) || old(self)@.members.len() >= MEMBER_MAX)
                ==> r == Ok::<u32, Refusal>(old(self)@.room_id) && final(self)@ == old(self)@.set_member(
                member.user_id,
                member@,
            ),
    {
        if self.members.contains_key(&member.user_id) || self.member_count() >= MEMBER_MAX as usize {
            return Err(Refusal::JoinFailed);
        }
        let uid = member.user_id;
        self.put_member(uid, member);
        Ok(self.room_id)
    }

    pub fn get_state(&self) -> (r: RoomState)
        ensures
            r == self.state,
    {
        self.state
    }

    pub fn get_room_id(&self) -> (r: u32)
        ensures
            r == self.room_id,
    {
        self.room_id
    }

    pub fn get_room_type(&self) -> (r: RoomType)
        ensures
            r == self.room_type,
    {
        self.room_type
    }

    pub fn get_owner_id(&self) -> (r: u32)
        ensures
            r == self.owner_id,
    {
        self.owner_id
    }

    pub fn is_started(&self) -> (r: bool)
        ensures
            r == self@.is_started(),
    {
        self.state != RoomState::Await
    }

    pub fn is_empty(&self) -> (r: bool)
        ensures
            r == self@.members.is_empty(),
    {
        assert(self@.members.dom() == self.members@.dom());
        self.members.is_empty()
    }

    pub fn is_exist_member(&self, uid: &u32) -> (r: bool)
        ensures
            r == self@.members.contains_key(*uid),
    {
        self.members.contains_key(uid)
    }

    pub fn get_member_ref(&self, uid: &u32) -> (r: Option<&Member>)
        ensures
            match r {
                Some(m) => self@.members.contains_key(*uid) && self@.members[*uid] == m@,
                None => !self@.members.contains_key(*uid),
            },
    {
        self.members.get(uid)
    }

    /// Takes member `uid` out of the room.
    pub fn take_member(&mut self, uid: u32) -> (m: Member)
        requires
            old(self)@.members.contains_key(uid),
        ensures
            m@ == old(self)@.members[uid],
            final(self)@ == (RoomView { members: old(self)@.members.remove(uid), ..old(self)@ }),
    {
        let m = self.members.remove(&uid).unwrap();
        proof {
            lemma_map_values_remove(old(self).members@, uid, |m: Member| m@);
        }
        m
    }

    /// Files `m` under `uid`.
    pub fn put_member(&mut self, uid: u32, m: Member)
        ensures
            final(self)@ == old(self)@.set_member(uid, m@),
    {
        self.members.insert(uid, m);
        proof {
            lemma_map_values_insert(old(self).members@, uid, m, |m: Member| m@);
        }
    }

    /// Marks member `uid` ready (`prepare`) or not ready.
    pub fn prepare_cancel(&mut self, uid: &u32, prepare: bool)
        requires
            old(self)@.members.contains_key(*uid),
        ensures
            final(self)@ == old(self)@.set_member(
                *uid,
                MemberView {
                    state: if prepare {
                        MemberState::Ready.code()
                    } else {
                        MemberState::NotReady.code()
                    },
                    ..old(self)@.members[*uid]
                },
            ),
    {
        let mut m = self.take_member(*uid);
        m.state = if prepare {
            MemberState::Ready.into_u8()
        } else {
            MemberState::NotReady.into_u8()
        };
        self.put_member(*uid, m);
        assert(final(self)@ =~= old(self)@.set_member(*uid, MemberView {
            state: if prepare { MemberState::Ready.code() } else { MemberState::NotReady.code() },
            ..old(self)@.members[*uid]
        }));
    }

    /// Moves member `uid`, if there is one, to team `team_id`.
    pub fn change_team(&mut self, uid: &u32, team_id: &u8)
        ensures
            final(self)@ == if old(self)@.members.contains_key(*uid) {
                old(self)@.set_member(*uid, MemberView { team_id: *team_id, ..old(self)@.members[*uid] })
            } else {
                old(self)@
            },
    {
        if self.members.contains_key(uid) {
            let mut m = self.take_member(*uid);
            m.team_id = *team_id;
            self.put_member(*uid, m);
            assert(final(self)@ =~= old(self)@.set_member(
                *uid,
                MemberView { team_id: *team_id, ..old(self)@.members[*uid] },
            ));
        }
    }

    /// Member `uid` removes member `target_id` from the room. The owner
    /// cannot remove itself.
    pub fn kick_member(&mut self, uid: &u32, target_id: &u32) -> (r: Result<(), Refusal>)
        requires
            old(self)@.members.contains_key(*target_id),
        ensures
            *target_id == old(self)@.owner_id ==> r == Err::<(), Refusal>(Refusal::KickFailed)
                && final(self)@ == old(self)@,
            *target_id != old(self)@.owner_id ==> r is Ok && final(self)@ == (RoomView {
                members: old(self)@.members.remove(*target_id),
                ..old(self)@
            }),
    {
        if *target_id == self.owner_id {
            return Err(Refusal::KickFailed);
        }
        let _ = self.take_member(*target_id);
        Ok(())
    }

    /// The user ids of the members, each once.
    pub fn member_ids(&self) -> (r: Vec<u32>)
        ensures
            r@.to_set() == self@.members.dom(),
            r@.no_duplicates(),
    {
        let ids = map_keys(&self.members);
        assert(self@.members.dom() =~= self.members@.dom());
        ids
    }

    /// Character `cter_id` may be chosen: it is the empty choice, or no
    /// member has chosen it.
    pub fn check_character(&self, cter_id: u32) -> (r: Result<(), Refusal>)
        ensures
            r is Ok <==> (cter_id == 0 || !self@.character_taken(cter_id)),
            r is Err ==> r == Err::<(), Refusal>(Refusal::CharacterTaken),
    {
        if cter_id == 0 {
            return Ok(());
        }
        let ids = self.member_ids();
        let n = ids.len();
        for i in 0..n
            invariant
                n == ids@.len(),
                cter_id != 0,
                ids@.to_set() == self@.members.dom(),
                forall|j: int| 0 <= j < i ==> self@.members[#[trigger] ids@[j]].chose_cter.cter_id != cter_id,
        {
            assert(ids@.to_set().contains(ids@[i as int]));
            let m = self.members.get(&ids[i]).unwrap();
            if m.chose_cter.cter_id == cter_id {
                assert(self@.members.contains_key(ids@[i as int]));
                assert(self@.members[ids@[i as int]].chose_cter.cter_id == cter_id);
                return Err(Refusal::CharacterTaken);
            }
        }
        assert forall|u: u32| #[trigger] self@.members.contains_key(u) implies self@.members[u].chose_cter.cter_id
            != cter_id by {
            assert(ids@.to_set().contains(u));
            let j = choose|j: int| 0 <= j < ids@.len() && ids@[j] == u;
        }
        Ok(())
    }

    /// Whether every member is ready.
    pub fn check_ready(&self) -> (r: bool)
        ensures
            r == self@.all_ready(),
    {
        let ids = self.member_ids();
        let n = ids.len();
        for i in 0..n
            invariant
                n == ids@.len(),
                ids@.to_set() == self@.members.dom(),
                forall|j: int| 0 <= j < i ==> self@.members[#[trigger] ids@[j]].state == MemberState::Ready.code(),
        {
            assert(ids@.to_set().contains(ids@[i as int]));
            let m = self.members.get(&ids[i]).unwrap();
            if m.state != MemberState::Ready.into_u8() {
                assert(self@.members.contains_key(ids@[i as int]));
                return false;
            }
        }
        assert forall|u: u32| #[trigger] self@.members.contains_key(u) implies self@.members[u].state
            == MemberState::Ready.code() by {
            assert(ids@.to_set().contains(u));
            let j = choose|j: int| 0 <= j < ids@.len() && ids@[j] == u;
        }
        true
    }

    /// Whether it is player `uid`'s turn to pick its starting cell.
    pub fn is_can_choice_index_now(&self, uid: u32) -> (r: bool)
        ensures
            r == self@.can_choice_index_now(uid),
    {
        self.state == RoomState::ChoiceIndex && self.battle_data.next_turn_index
            < self.battle_data.turn_orders.len()
            && self.battle_data.turn_orders[self.battle_data.next_turn_index] == uid
    }

    /// Whether player `uid` has taken a turn order.
    pub fn turn_order_contains(&self, uid: &u32) -> (r: bool)
        ensures
            r == self@.battle_data.turn_orders@.contains(*uid),
    {
        vec_contains(&self.battle_data.turn_orders, *uid)
    }

    /// The battle character of player `uid`.
    pub fn get_battle_cter_ref(&self, uid: &u32) -> (r: Option<&BattleCharacter>)
        ensures
            match r {
                Some(c) => self@.battle_data.battle_cter@.contains_key(*uid) && *c
                    == self@.battle_data.battle_cter@[*uid],
                None => !self@.battle_data.battle_cter@.contains_key(*uid),
            },
    {
        self.battle_data.battle_cter.get(uid)
    }

    /// Whether it is player `uid`'s turn to pick its turn order.
    pub fn is_can_choice_turn_now(&self, uid: u32) -> (r: bool)
        ensures
            r == self@.can_choice_turn_now(uid),
    {
        self.state == RoomState::ChoiceTurn && self.battle_data.next_choice_index
            < self.battle_data.choice_orders.len()
            && self.battle_data.choice_orders[self.battle_data.next_choice_index] == uid
    }
}

} // verus!

//! The room manager: all custom and match rooms, and which room each
//! player is in.

use crate::binary::{combine_int_2_long, separate_long_2_int, spec_combine};
use crate::protocol::{Refusal, RoomError};
use crate::room::{
    lemma_map_values_insert, lemma_map_values_remove, BattleType, Member, MemberView, Room, RoomState,
    RoomType, RoomView, MEMBER_MAX,
};
use std::collections::HashMap;
use vstd::prelude::*;

verus! {

broadcast use vstd::std_specs::hash::group_hash_axioms;

/// Rooms that players open and fill themselves.
pub struct CustomRoom {
    pub rooms: HashMap<u32, Room>,
    /// The id the next custom room gets.
    pub next_room_id: u32,
}

/// Rooms that matchmaking fills.
pub struct MatchRooms {
    pub rooms: HashMap<u32, Room>,
    /// The id the next match room gets.
    pub next_room_id: u32,
    /// For each battle type code, the match room that takes the next player.
    pub waiting: HashMap<u8, u32>,
}

pub struct RoomMgr {
    pub custom_room: CustomRoom,
    pub match_rooms: MatchRooms,
    /// For each player, the packed room type code (high half) and room id
    /// (low half) of the room the player is in.
    pub player_room: HashMap<u32, u64>,
}

#[verifier::ext_equal]
pub struct RoomMgrView {
    pub player_room: Map<u32, u64>,
    pub custom_rooms: Map<u32, RoomView>,
    pub next_custom_id: u32,
    pub match_rooms: Map<u32, RoomView>,
    pub next_match_id: u32,
    pub waiting: Map<u8, u32>,
}

impl View for RoomMgr {
    type V = RoomMgrView;

    open spec fn view(&self) -> RoomMgrView {
        RoomMgrView {
            player_room: self.player_room@,
            custom_rooms: self.custom_room.rooms@.map_values(|r: Room| r@),
            next_custom_id: self.custom_room.next_room_id,
            match_rooms: self.match_rooms.rooms@.map_values(|r: Room| r@),
            next_match_id: self.match_rooms.next_room_id,
            waiting: self.match_rooms.waiting@,
        }
    }
}

/// Whether rooms of type `t` are kept by the manager.
pub open spec fn is_kept_type(t: RoomType) -> bool {
    t == RoomType::Custom || t == RoomType::Match
}

/// The packed value that files a player under room `id` of type `t`.
pub open spec fn room_value(t: RoomType, id: u32) -> int {
    spec_combine(t.code() as u32, id)
}

impl RoomMgrView {
    pub open spec fn rooms(self, t: RoomType) -> Map<u32, RoomView> {
        if t == RoomType::Custom {
            self.custom_rooms
        } else if t == RoomType::Match {
            self.match_rooms
        } else {
            Map::empty()
        }
    }

    pub open spec fn set_room(self, t: RoomType, id: u32, r: RoomView) -> RoomMgrView {
        if t == RoomType::Custom {
            RoomMgrView { custom_rooms: self.custom_rooms.insert(id, r), ..self }
        } else if t == RoomType::Match {
            RoomMgrView { match_rooms: self.match_rooms.insert(id, r), ..self }
        } else {
            self
        }
    }

    pub open spec fn remove_room(self, t: RoomType, id: u32) -> RoomMgrView {
        if t == RoomType::Custom {
            RoomMgrView { custom_rooms: self.custom_rooms.remove(id), ..self }
        } else if t == RoomType::Match {
            RoomMgrView { match_rooms: self.match_rooms.remove(id), ..self }
        } else {
            self
        }
    }

    /// The room type that a packed player-room value names.
    pub open spec fn value_type(v: u64) -> RoomType {
        if v as int / 0x1_0000_0000 == 1 {
            RoomType::Custom
        } else if v as int / 0x1_0000_0000 == 2 {
            RoomType::Match
        } else {
            RoomType::NoType
        }
    }

    /// The room id that a packed player-room value names.
    pub open spec fn value_id(v: u64) -> u32 {
        (v as int % 0x1_0000_0000) as u32
    }

    /// The type and id of the room that player `uid` is filed under, where
    /// that room exists.
    pub open spec fn loc(self, uid: u32) -> Option<(RoomType, u32)> {
        if self.player_room.contains_key(uid) {
            let v = self.player_room[uid];
            let t = RoomMgrView::value_type(v);
            let id = RoomMgrView::value_id(v);
            if is_kept_type(t) && self.rooms(t).contains_key(id) {
                Some((t, id))
            } else {
                None
            }
        } else {
            None
        }
    }

    /// The room that player `uid` is in.
    pub open spec fn room_of(self, uid: u32) -> Option<RoomView> {
        match self.loc(uid) {
            Some((t, id)) => Some(self.rooms(t)[id]),
            None => None,
        }
    }

    /// The low half of the value player `uid` is filed under.
    pub open spec fn room_id_of(self, uid: u32) -> Option<u32> {
        if self.player_room.contains_key(uid) {
            Some(RoomMgrView::value_id(self.player_room[uid]))
        } else {
            None
        }
    }

    pub open spec fn rooms_wf(rooms: Map<u32, RoomView>, t: RoomType, next: u32) -> bool {
        forall|id: u32| #[trigger]
            rooms.contains_key(id) ==> {
                &&& rooms[id].room_id == id
                &&& rooms[id].room_type == t
                &&& id < next
                &&& rooms[id].wf()
            }
    }

    /// The match room waiting for players of a battle type has an id that was
    /// handed out and, where it exists, is of that battle type.
    pub open spec fn waiting_wf(self) -> bool {
        forall|c: u8| #[trigger]
            self.waiting.contains_key(c) ==> {
                &&& self.waiting[c] < self.next_match_id
                &&& self.match_rooms.contains_key(self.waiting[c])
                    ==> self.match_rooms[self.waiting[c]].setting.battle_type.code() == c
            }
    }

    /// Rooms are filed under their own ids and types, below the next id to
    /// hand out, and each files its members under their user ids; a waiting
    /// match room is of the battle type it waits for.
    pub open spec fn wf(self) -> bool {
        &&& RoomMgrView::rooms_wf(self.custom_rooms, RoomType::Custom, self.next_custom_id)
        &&& RoomMgrView::rooms_wf(self.match_rooms, RoomType::Match, self.next_match_id)
        &&& self.waiting_wf()
    }
}

/// The match room waiting for players of battle type `bt` takes `m`: it
/// exists, waits, has a free place and does not hold that player yet.
pub open spec fn joins_waiting(o: RoomMgrView, bt: BattleType, m: MemberView) -> bool {
    &&& o.waiting.contains_key(bt.code())
    &&& o.match_rooms.contains_key(o.waiting[bt.code()])
    &&& o.match_rooms[o.waiting[bt.code()]].state == RoomState::Await
    &&& o.match_rooms[o.waiting[bt.code()]].members.len() < MEMBER_MAX
    &&& !o.match_rooms[o.waiting[bt.code()]].members.contains_key(m.user_id)
}

/// The manager after the waiting match room of battle type `bt` took `m`;
/// a room that became full stops waiting.
pub open spec fn joined_waiting(o: RoomMgrView, bt: BattleType, m: MemberView) -> RoomMgrView {
    let w = o.waiting[bt.code()];
    let rw = o.match_rooms[w];
    RoomMgrView {
        waiting: if rw.members.len() + 1 >= MEMBER_MAX {
            o.waiting.remove(bt.code())
        } else {
            o.waiting
        },
        ..o.set_room(RoomType::Match, w, rw.set_member(m.user_id, m))
    }
}

/// `n` is `o` with a new room of type `t` opened under id `id` for `owner`,
/// and the next id to hand out moved on; nothing else changed.
pub open spec fn opened_room(o: RoomMgrView, n: RoomMgrView, t: RoomType, id: u32, owner: MemberView, bt: BattleType) -> bool {
    &&& n.rooms(t).contains_key(id)
    &&& n.rooms(t)[id].is_fresh(id, t, owner, bt)
    &&& if t == RoomType::Custom {
        &&& id == o.next_custom_id
        &&& n == RoomMgrView {
            custom_rooms: o.custom_rooms.insert(id, n.custom_rooms[id]),
            next_custom_id: (id + 1) as u32,
            ..o
        }
    } else {
        &&& id == o.next_match_id
        &&& n == RoomMgrView {
            match_rooms: o.match_rooms.insert(id, n.match_rooms[id]),
            next_match_id: (id + 1) as u32,
            waiting: o.waiting.insert(bt.code(), id),
            ..o
        }
    }
}

/// The waiting table without battle type `bt` if room `id` waits for it.
pub open spec fn waiting_without(w: Map<u8, u32>, bt: u8, id: u32) -> Map<u8, u32> {
    if w.contains_key(bt) && w[bt] == id {
        w.remove(bt)
    } else {
        w
    }
}

/// Taking a room out and filing another under the same id is filing it there.
pub proof fn lemma_take_then_put(v: RoomMgrView, t: RoomType, id: u32, r: RoomView)
    requires
        is_kept_type(t),
    ensures
        v.remove_room(t, id).set_room(t, id, r) == v.set_room(t, id, r),
{
    assert(v.custom_rooms.remove(id).insert(id, r) =~= v.custom_rooms.insert(id, r));
    assert(v.match_rooms.remove(id).insert(id, r) =~= v.match_rooms.insert(id, r));
    assert(v.remove_room(t, id).set_room(t, id, r) =~= v.set_room(t, id, r));
}

/// Filing a room back unchanged leaves the manager as it was.
pub proof fn lemma_put_back(v: RoomMgrView, t: RoomType, id: u32)
    requires
        is_kept_type(t),
        v.rooms(t).contains_key(id),
    ensures
        v.set_room(t, id, v.rooms(t)[id]) == v,
{
    if t == RoomType::Custom {
        assert(v.custom_rooms.insert(id, v.custom_rooms[id]) =~= v.custom_rooms);
    } else {
        assert(v.match_rooms.insert(id, v.match_rooms[id]) =~= v.match_rooms);
    }
    assert(v.set_room(t, id, v.rooms(t)[id]) =~= v);
}

impl RoomMgr {
    /// A manager with no rooms and no players, handing out id 0 first.
    pub fn new() -> (rm: RoomMgr)
        ensures
            rm@.wf(),
            rm@ == (RoomMgrView {
                player_room: Map::empty(),
                custom_rooms: Map::empty(),
                next_custom_id: 0,
                match_rooms: Map::empty(),
                next_match_id: 0,
                waiting: Map::empty(),
            }),
    {
        let rm = RoomMgr {
            custom_room: CustomRoom { rooms: HashMap::new(), next_room_id: 0 },
            match_rooms: MatchRooms { rooms: HashMap::new(), next_room_id: 0, waiting: HashMap::new() },
            player_room: HashMap::new(),
        };
        assert(rm@.custom_rooms =~= Map::empty());
        assert(rm@.match_rooms =~= Map::empty());
        rm
    }

    /// The room id player `uid` is filed under.
    pub fn get_room_id(&self, uid: &u32) -> (r: Option<u32>)
        ensures
            r == self@.room_id_of(*uid),
    {
        match self.player_room.get(uid) {
            Some(v) => {
                let (_, id) = separate_long_2_int(*v);
                Some(id)
            },
            None => None,
        }
    }

    /// Whether player `uid` is filed under some room.
    pub fn check_player(&self, uid: &u32) -> (r: bool)
        ensures
            r == self@.player_room.contains_key(*uid),
    {
        self.player_room.contains_key(uid)
    }

    /// The type and id of the room player `uid` is in.
    pub fn get_room_loc(&self, uid: &u32) -> (r: Option<(RoomType, u32)>)
        ensures
            r == self@.loc(*uid),
    {
        match self.player_room.get(uid) {
            Some(v) => {
                let (high, id) = separate_long_2_int(*v);
                if high == RoomType::Custom.into_u32() {
                    if self.custom_room.rooms.contains_key(&id) {
                        Some((RoomType::Custom, id))
                    } else {
                        None
                    }
                } else if high == RoomType::Match.into_u32() {
                    if self.match_rooms.rooms.contains_key(&id) {
                        Some((RoomType::Match, id))
                    } else {
                        None
                    }
                } else {
                    None
                }
            },
            None => None,
        }
    }

    /// The room of type `t` with id `id`.
    pub fn room_ref(&self, t: RoomType, id: u32) -> (r: &Room)
        requires
            is_kept_type(t),
            self@.rooms(t).contains_key(id),
        ensures
            r@ == self@.rooms(t)[id],
    {
        if t == RoomType::Custom {
            self.custom_room.rooms.get(&id).unwrap()
        } else {
            self.match_rooms.rooms.get(&id).unwrap()
        }
    }

    /// Takes room `id` of type `t` out of the manager.
    pub fn take_room(&mut self, t: RoomType, id: u32) -> (r: Room)
        requires
            is_kept_type(t),
            old(self)@.rooms(t).contains_key(id),
        ensures
            r@ == old(self)@.rooms(t)[id],
            final(self)@ == old(self)@.remove_room(t, id),
    {
        if t == RoomType::Custom {
            let r = self.custom_room.rooms.remove(&id).unwrap();
            proof {
                lemma_map_values_remove(old(self).custom_room.rooms@, id, |r: Room| r@);
            }
            assert(self@ =~= old(self)@.remove_room(t, id));
            r
        } else {
            let r = self.match_rooms.rooms.remove(&id).unwrap();
            proof {
                lemma_map_values_remove(old(self).match_rooms.rooms@, id, |r: Room| r@);
            }
            assert(self@ =~= old(self)@.remove_room(t, id));
            r
        }
    }

    /// Files room `r` under id `id` and type `t`.
    pub fn put_room(&mut self, t: RoomType, id: u32, r: Room)
        requires
            is_kept_type(t),
        ensures
            final(self)@ == old(self)@.set_room(t, id, r@),
    {
        if t == RoomType::Custom {
            self.custom_room.rooms.insert(id, r);
            proof {
                lemma_map_values_insert(old(self).custom_room.rooms@, id, r, |r: Room| r@);
            }
            assert(self@ =~= old(self)@.set_room(t, id, r@));
        } else {
            self.match_rooms.rooms.insert(id, r);
            proof {
                lemma_map_values_insert(old(self).match_rooms.rooms@, id, r, |r: Room| r@);
            }
            assert(self@ =~= old(self)@.set_room(t, id, r@));
        }
    }

    /// Files player `uid` under room `id` of type `t`.
    pub fn file_player(&mut self, uid: u32, t: RoomType, id: u32)
        ensures
            final(self)@ == (RoomMgrView {
                player_room: old(self)@.player_room.insert(uid, room_value(t, id) as u64),
                ..old(self)@
            }),
    {
        let v = combine_int_2_long(t.into_u32(), id);
        self.player_room.insert(uid, v);
        assert(self@ =~= RoomMgrView {
            player_room: old(self)@.player_room.insert(uid, room_value(t, id) as u64),
            ..old(self)@
        });
    }

    /// Opens a custom room of battle type `bt` with `owner` as its owner.
    pub fn create_custom_room(&mut self, bt: BattleType, owner: Member) -> (r: Result<u32, RoomError>)
        requires
            old(self)@.wf(),
        ensures
            final(self)@.wf(),
            old(self)@.next_custom_id == u32::MAX ==> r == Err::<u32, RoomError>(RoomError::RoomIdsExhausted)
                && final(self)@ == old(self)@,
            old(self)@.next_custom_id < u32::MAX ==> r == Ok::<u32, RoomError>(old(self)@.next_custom_id)
                && opened_room(old(self)@, final(self)@, RoomType::Custom, old(self)@.next_custom_id, owner@, bt),
    {
        let id = self.custom_room.next_room_id;
        if id == u32::MAX {
            return Err(RoomError::RoomIdsExhausted);
        }
        let owner_view = Ghost(owner@);
        let room = Room::new(id, RoomType::Custom, owner, bt);
        self.put_room(RoomType::Custom, id, room);
        self.custom_room.next_room_id = id + 1;
        assert(self@ =~= RoomMgrView {
            custom_rooms: old(self)@.custom_rooms.insert(id, self@.custom_rooms[id]),
            next_custom_id: (id + 1) as u32,
            ..old(self)@
        });
        Ok(id)
    }

    /// Puts `member` into a match room of battle type `bt`: the one waiting
    /// for players of that type, where it takes the member, or else a new one,
    /// which then waits for players. A room that is full stops waiting.
    pub fn quickly_start(&mut self, bt: BattleType, member: Member) -> (r: Result<u32, RoomError>)
        requires
            old(self)@.wf(),
        ensures
            final(self)@.wf(),
            ({
                let o = old(self)@;
                let n = final(self)@;
                let m = member@;
                if joins_waiting(o, bt, m) {
                    r == Ok::<u32, RoomError>(o.waiting[bt.code()]) && n == joined_waiting(o, bt, m)
                } else if o.next_match_id == u32::MAX {
                    r == Err::<u32, RoomError>(RoomError::RoomIdsExhausted) && n == o
                } else {
                    r == Ok::<u32, RoomError>(o.next_match_id) && opened_room(o, n, RoomType::Match, o.next_match_id, m, bt)
                }
            }),
    {
        let code = bt.into_u8();
        let waiting_id = match self.match_rooms.waiting.get(&code) {
            Some(w) => Some(*w),
            None => None,
        };
        if let Some(w) = waiting_id {
            if self.match_rooms.rooms.contains_key(&w) {
                let fits = {
                    let room = self.room_ref(RoomType::Match, w);
                    room.get_state() == RoomState::Await && room.member_count() < MEMBER_MAX as usize
                        && !room.is_exist_member(&member.user_id)
                };
                if fits {
                    let mut room = self.take_room(RoomType::Match, w);
                    let res = room.add_member(member);
                    let full = room.member_count() >= MEMBER_MAX as usize;
                    proof {
                        lemma_take_then_put(old(self)@, RoomType::Match, w, room@);
                    }
                    self.put_room(RoomType::Match, w, room);
                    if full {
                        self.match_rooms.waiting.remove(&code);
                    }
                    proof {
                        let rw = old(self)@.match_rooms[w];
                        assert(old(self)@.match_rooms.contains_key(w));
                        assert(rw.wf());
                        assert(!rw.members.contains_key(member@.user_id));
                        assert(rw.members.insert(member@.user_id, member@).dom() =~= rw.members.dom().insert(member@.user_id));
                        assert(rw.set_member(member@.user_id, member@).members.len() == rw.members.len() + 1);
                        assert(self@ =~= RoomMgrView {
                            waiting: if rw.members.len() + 1 >= MEMBER_MAX {
                                old(self)@.waiting.remove(code)
                            } else {
                                old(self)@.waiting
                            },
                            ..old(self)@.set_room(RoomType::Match, w, rw.set_member(member@.user_id, member@))
                        });
                    }
                    return Ok(w);
                }
            }
        }
        let id = self.match_rooms.next_room_id;
        if id == u32::MAX {
            return Err(RoomError::RoomIdsExhausted);
        }
        let room = Room::new(id, RoomType::Match, member, bt);
        self.put_room(RoomType::Match, id, room);
        self.match_rooms.next_room_id = id + 1;
        self.match_rooms.waiting.insert(code, id);
        assert(self@ =~= RoomMgrView {
            match_rooms: old(self)@.match_rooms.insert(id, self@.match_rooms[id]),
            next_match_id: (id + 1) as u32,
            waiting: old(self)@.waiting.insert(code, id),
            ..old(self)@
        });
        Ok(id)
    }

    /// Member `uid` leaves room `id` of type `t`.
    pub fn leave_member(&mut self, t: RoomType, id: u32, uid: &u32) -> (r: Result<(), Refusal>)
        requires
            is_kept_type(t),
            old(self)@.rooms(t).contains_key(id),
        ensures
            old(self)@.rooms(t)[id].members.contains_key(*uid) ==> r is Ok && final(self)@
                == old(self)@.set_room(
                t,
                id,
                RoomView {
                    members: old(self)@.rooms(t)[id].members.remove(*uid),
                    ..old(self)@.rooms(t)[id]
                },
            ),
            !old(self)@.rooms(t)[id].members.contains_key(*uid) ==> r == Err::<(), Refusal>(
                Refusal::LeaveFailed,
            ) && final(self)@ == old(self)@,
    {
        if !self.room_ref(t, id).is_exist_member(uid) {
            return Err(Refusal::LeaveFailed);
        }
        let mut room = self.take_room(t, id);
        let _ = room.take_member(*uid);
        proof {
            lemma_take_then_put(old(self)@, t, id, room@);
        }
        self.put_room(t, id, room);
        Ok(())
    }

    /// Removes custom room `id`.
    pub fn rm_custom_room(&mut self, id: &u32)
        ensures
            final(self)@ == old(self)@.remove_room(RoomType::Custom, *id),
    {
        self.custom_room.rooms.remove(id);
        proof {
            lemma_map_values_remove(old(self).custom_room.rooms@, *id, |r: Room| r@);
        }
        assert(self@ =~= old(self)@.remove_room(RoomType::Custom, *id));
    }

    /// Removes match room `id`; it no longer waits for players of battle
    /// type `battle_type`.
    pub fn rm_match_room(&mut self, battle_type: u8, id: u32)
        ensures
            final(self)@ == (RoomMgrView {
                waiting: waiting_without(old(self)@.waiting, battle_type, id),
                ..old(self)@.remove_room(RoomType::Match, id)
            }),
    {
        self.match_rooms.rooms.remove(&id);
        proof {
            lemma_map_values_remove(old(self).match_rooms.rooms@, id, |r: Room| r@);
        }
        let waits = match self.match_rooms.waiting.get(&battle_type) {
            Some(w) => *w == id,
            None => false,
        };
        if waits {
            self.match_rooms.waiting.remove(&battle_type);
        }
        assert(self@ =~= RoomMgrView {
            waiting: waiting_without(old(self)@.waiting, battle_type, id),
            ..old(self)@.remove_room(RoomType::Match, id)
        });
    }

    /// Removes the players `ids` from the player-room table.
    pub fn unfile_players(&mut self, ids: &Vec<u32>)
        ensures
            final(self)@ == (RoomMgrView {
                player_room: old(self)@.player_room.remove_keys(ids@.to_set()),
                ..old(self)@
            }),
    {
        let n = ids.len();
        for i in 0..n
            invariant
                n == ids@.len(),
                self@ == (RoomMgrView {
                    player_room: old(self)@.player_room.remove_keys(ids@.take(i as int).to_set()),
                    ..old(self)@
                }),
        {
            let ghost before = self@.player_room;
            self.unfile_player(&ids[i]);
            assert(ids@.take(i + 1).to_set() =~= ids@.take(i as int).to_set().insert(ids@[i as int]))
                by {
                assert(ids@.take(i + 1) =~= ids@.take(i as int).push(ids@[i as int]));
                ids@.take(i as int).lemma_push_to_set_commute(ids@[i as int]);
            }
            assert(self@.player_room =~= old(self)@.player_room.remove_keys(
                ids@.take(i + 1).to_set(),
            ));
        }
        assert(ids@.take(n as int) =~= ids@);
    }

    /// Removes player `uid` from the player-room table.
    pub fn unfile_player(&mut self, uid: &u32)
        ensures
            final(self)@ == (RoomMgrView {
                player_room: old(self)@.player_room.remove(*uid),
                ..old(self)@
            }),
    {
        self.player_room.remove(uid);
        assert(self@ =~= RoomMgrView { player_room: old(self)@.player_room.remove(*uid), ..old(self)@ });
    }
}

} // verus!

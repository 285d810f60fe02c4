//! Properties that span the handlers and rules of the library.

use crate::battle::{energy_after, hp_after, BattleDataView, MapCellView};
use crate::battle_trigger::refreshed;
use crate::binary::lemma_separate_combine;
use crate::room::{BattleType, MemberState, MemberView, RoomSetting, RoomState, RoomType, RoomView, MEMBER_MAX};
use crate::room_handler::{apply_setting, filed, needs_removal};
use crate::room_mgr::{is_kept_type, opened_room, RoomMgrView};
use vstd::prelude::*;

verus! {

/// A player filed under room `id` of type `t` finds that room again, where
/// it exists.
pub proof fn lemma_filed_player_finds_room(o: RoomMgrView, uid: u32, t: RoomType, id: u32)
    requires
        is_kept_type(t),
        o.rooms(t).contains_key(id),
    ensures
        filed(o, uid, t, id).loc(uid) == Some((t, id)),
        filed(o, uid, t, id).room_of(uid) == Some(o.rooms(t)[id]),
{
    lemma_separate_combine(t.code() as u32, id);
}

/// Getting ready and then not ready again leaves the manager as it was, for
/// a member that was not ready.
pub proof fn lemma_prepare_then_cancel(o: RoomMgrView, t: RoomType, id: u32, uid: u32)
    requires
        is_kept_type(t),
        o.rooms(t).contains_key(id),
        o.rooms(t)[id].members.contains_key(uid),
        o.rooms(t)[id].members[uid].state == MemberState::NotReady.code(),
    ensures
        ({
            let r = o.rooms(t)[id];
            let m = r.members[uid];
            let p = o.set_room(t, id, r.set_member(uid, MemberView { state: MemberState::Ready.code(), ..m }));
            let r2 = p.rooms(t)[id];
            let m2 = r2.members[uid];
            &&& p.loc(uid) == o.loc(uid)
            &&& p.set_room(t, id, r2.set_member(uid, MemberView { state: MemberState::NotReady.code(), ..m2 }))
                == o
        }),
{
    let r = o.rooms(t)[id];
    let m = r.members[uid];
    let p = o.set_room(t, id, r.set_member(uid, MemberView { state: MemberState::Ready.code(), ..m }));
    let r2 = p.rooms(t)[id];
    let m2 = r2.members[uid];
    assert(r2.set_member(uid, MemberView { state: MemberState::NotReady.code(), ..m2 }).members =~= r.members);
    assert(r2.set_member(uid, MemberView { state: MemberState::NotReady.code(), ..m2 }) =~= r);
    if t == RoomType::Custom {
        assert(p.set_room(t, id, r).custom_rooms =~= o.custom_rooms);
    } else {
        assert(p.set_room(t, id, r).match_rooms =~= o.match_rooms);
    }
    assert(p.set_room(t, id, r2.set_member(uid, MemberView { state: MemberState::NotReady.code(), ..m2 })) =~= o);
}

/// A player filed under no room that joins a waiting custom room holding
/// others and then leaves it gives the manager back as it was.
pub proof fn lemma_join_then_leave_custom(o: RoomMgrView, rid: u32, uid: u32, m: MemberView)
    requires
        o.wf(),
        o.custom_rooms.contains_key(rid),
        !o.player_room.contains_key(uid),
        !o.custom_rooms[rid].members.contains_key(uid),
        !o.custom_rooms[rid].members.is_empty(),
        o.custom_rooms[rid].state == RoomState::Await,
        m.user_id == uid,
    ensures
        ({
            let r = o.custom_rooms[rid];
            let joined = filed(o.set_room(RoomType::Custom, rid, r.set_member(uid, m)), uid, r.room_type, rid);
            let r2 = joined.custom_rooms[rid];
            let left = RoomMgrView {
                player_room: joined.player_room.remove(uid),
                ..joined.set_room(RoomType::Custom, rid, r2.without_member(uid))
            };
            &&& joined.loc(uid) == Some((RoomType::Custom, rid))
            &&& !needs_removal(r2.without_member(uid))
            &&& left == o
            &&& left.room_of(uid) is None
        }),
{
    let r = o.custom_rooms[rid];
    assert(r.room_type == RoomType::Custom);
    let mid = o.set_room(RoomType::Custom, rid, r.set_member(uid, m));
    lemma_filed_player_finds_room(mid, uid, RoomType::Custom, rid);
    let joined = filed(mid, uid, r.room_type, rid);
    let r2 = joined.custom_rooms[rid];
    assert(r2.without_member(uid).members =~= r.members);
    assert(r2.without_member(uid) =~= r);
    assert(joined.set_room(RoomType::Custom, rid, r).custom_rooms =~= o.custom_rooms);
    assert(joined.player_room.remove(uid) =~= o.player_room);
    let left = RoomMgrView {
        player_room: joined.player_room.remove(uid),
        ..joined.set_room(RoomType::Custom, rid, r2.without_member(uid))
    };
    assert(left =~= o);
}

/// A kicked player is filed under no room and is no member of the room it
/// was kicked from.
pub proof fn lemma_kicked_player_has_no_room(o: RoomMgrView, t: RoomType, id: u32, target: u32)
    requires
        is_kept_type(t),
        o.rooms(t).contains_key(id),
    ensures
        ({
            let r = o.rooms(t)[id];
            let n = RoomMgrView {
                player_room: o.player_room.remove(target),
                ..o.set_room(t, id, RoomView { members: r.members.remove(target), ..r })
            };
            &&& n.room_of(target) is None
            &&& !n.rooms(t)[id].members.contains_key(target)
        }),
{
}

/// The player that opens a room finds it as its room: waiting, owned by the
/// member it brought, who is its only member.
pub proof fn lemma_created_room_is_found(o: RoomMgrView, n: RoomMgrView, uid: u32, owner: MemberView, bt: BattleType)
    requires
        opened_room(filed(o, uid, RoomType::Custom, o.next_custom_id), n, RoomType::Custom, o.next_custom_id, owner, bt),
    ensures
        n.room_of(uid) == Some(n.custom_rooms[o.next_custom_id]),
        n.custom_rooms[o.next_custom_id].owner_id == owner.user_id,
        n.custom_rooms[o.next_custom_id].state == RoomState::Await,
        n.custom_rooms[o.next_custom_id].members.dom() == set![owner.user_id],
{
    lemma_separate_combine(RoomType::Custom.code() as u32, o.next_custom_id);
    assert(n.custom_rooms[o.next_custom_id].members.dom() =~= set![owner.user_id]);
}

/// Refreshing twice makes no more skills inactive than refreshing once.
pub proof fn lemma_refresh_idempotent(v: BattleDataView, cells: Seq<MapCellView>, locked: u32)
    ensures
        refreshed(refreshed(v, cells, locked), cells, locked) == refreshed(v, cells, locked),
{
    let once = refreshed(v, cells, locked);
    let twice = refreshed(once, cells, locked);
    assert forall|u: u32| #[trigger] once.cters.contains_key(u) implies twice.cters[u] == once.cters[u] by {
        assert(twice.cters[u].skills =~= once.cters[u].skills);
        assert(twice.cters[u] =~= once.cters[u]);
    }
    assert(twice.cters =~= once.cters);
    assert(twice =~= once);
}

/// Damage leaves hit points between 0 and the largest value they hold, and
/// never raises them.
pub proof fn lemma_damage_bounds(hp: i16, damage: i16)
    ensures
        0 <= hp_after(hp, damage) <= i16::MAX,
        damage >= 0 && hp >= 0 ==> hp_after(hp, damage) <= hp,
{
}

/// Energy stays between 0 and the maximum, and gaining never lowers it.
pub proof fn lemma_energy_bounds(e: u8, max: u8, v: i8)
    ensures
        energy_after(e, max, v) <= max,
        v >= 0 && e <= max ==> e <= energy_after(e, max, v),
{
}

/// A room that keeps a member and whose battle is not over is not closed,
/// whatever state it is in; one that nobody is left in, or whose battle is
/// over, is.
pub proof fn lemma_room_closes_only_when_empty_or_over(r: RoomView, w: u32)
    ensures
        r.members.contains_key(w) && r.state != RoomState::BattleOvered ==> !needs_removal(r),
        r.members.dom().is_empty() || r.state == RoomState::BattleOvered ==> needs_removal(r),
{
    if r.members.dom().is_empty() {
        assert(r.members =~= Map::<u32, MemberView>::empty());
    }
}

/// A request to open a room to AI players or close it leaves it open
/// exactly when the value is 1, whatever it was before; a season id or a
/// turn time limit is set to the value; an unknown setting changes nothing.
/// No request touches another setting or the battle type.
pub proof fn lemma_setting_request(s: RoomSetting, set_type: u32, value: u32)
    ensures
        set_type == 1 ==> apply_setting(s, set_type, value) == (RoomSetting { is_open_ai: value == 1, ..s }),
        set_type == 2 ==> apply_setting(s, set_type, value) == (RoomSetting { season_id: value, ..s }),
        set_type == 3 ==> apply_setting(s, set_type, value) == (RoomSetting { turn_limit_time: value, ..s }),
        set_type == 0 || set_type > 3 ==> apply_setting(s, set_type, value) == s,
        apply_setting(s, set_type, value).battle_type == s.battle_type,
{
}

/// Sending the same setting request twice is sending it once.
pub proof fn lemma_setting_request_idempotent(s: RoomSetting, set_type: u32, value: u32)
    ensures
        apply_setting(apply_setting(s, set_type, value), set_type, value) == apply_setting(s, set_type, value),
{
}

} // verus!

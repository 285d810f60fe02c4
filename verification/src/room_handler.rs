//! The handlers of the requests that players send to the room server.

use crate::protocol::{
    done_silent, refused,
    BattleAction, CChangeTeam, CChooseCharacter, CChooseSkill, CChooseIndex, CChooseTurnOrder, GRCreateRoom, GRJoinRoom, GRSearchRoom, RoomCode, CEmoji, CKickMember, CPrepareCancel, CRoomSetting, Notice, Packet,
    Refusal, Reply, RoomError,
};
use crate::room::{
    BattleType, Character, CharacterView, MemberState, MemberView, RoomSetting, RoomSettingType, RoomState, RoomType, RoomView, MEMBER_MAX, TEAM_ID_MAX,
    TEAM_ID_MIN,
};
use crate::room_mgr::{
    joined_waiting, joins_waiting, lemma_put_back, lemma_take_then_put, opened_room, room_value,
    waiting_without, RoomMgr, RoomMgrView,
};
use crate::collections::vec_contains;
use crate::templates::Templates;
use vstd::prelude::*;

verus! {

broadcast use vstd::std_specs::hash::group_hash_axioms;

/// Reloading the configuration tables happens elsewhere; the room state
/// does not change.
pub fn reload_temps(rm: &mut RoomMgr, packet: Packet) -> (res: Result<Reply, RoomError>)
    ensures
        final(rm)@ == old(rm)@,
        done_silent(res),
{
    Ok(Reply::Done(Vec::new()))
}

/// The character template that `prepare_cancel` reads exists: wherever
/// player `uid` is a member of a waiting room and has chosen a character.
pub open spec fn prepare_cancel_templates_ok(rm: RoomMgrView, templates: &Templates, uid: u32) -> bool {
    match rm.room_of(uid) {
        Some(r) => (r.state == RoomState::Await && r.members.contains_key(uid)
            && r.members[uid].chose_cter.cter_id != 0) ==> templates.characters@.contains_key(
            r.members[uid].chose_cter.cter_id,
        ),
        None => true,
    }
}

/// A player marks itself ready (`prepare`) or not ready. Getting ready
/// needs a chosen character with all of its usable skills chosen.
pub fn prepare_cancel(
    rm: &mut RoomMgr,
    templates: &Templates,
    packet: Packet,
    msg: Option<CPrepareCancel>,
) -> (res: Result<Reply, RoomError>)
    requires
        old(rm)@.wf(),
        prepare_cancel_templates_ok(old(rm)@, templates, packet.user_id),
    ensures
        final(rm)@.wf(),
        ({
            let uid = packet.user_id;
            let o = old(rm)@;
            let n = final(rm)@;
            if msg is None {
                refused(res, Refusal::DecodeFailed) && n == o
            } else if o.room_of(uid) is None {
                refused(res, Refusal::NotInRoom) && n == o
            } else {
                let t = o.loc(uid).unwrap().0;
                let id = o.loc(uid).unwrap().1;
                let r = o.rooms(t)[id];
                let m = r.members[uid];
                let prepare = msg.unwrap().prepare;
                if r.state != RoomState::Await {
                    res == Err::<Reply, RoomError>(RoomError::RoomStarted { room_id: id }) && n == o
                } else if !r.members.contains_key(uid) {
                    refused(res, Refusal::MemberNotFound) && n == o
                } else if m.chose_cter.cter_id == 0 {
                    refused(res, Refusal::CharacterNotChosen) && n == o
                } else if prepare && m.chose_cter.skills.len()
                    < templates.characters@[m.chose_cter.cter_id].usable_skill_count {
                    refused(res, Refusal::SkillsNotChosen) && n == o
                } else {
                    done_silent(res) && n == o.set_room(
                        t,
                        id,
                        r.set_member(
                            uid,
                            MemberView {
                                state: if prepare {
                                    MemberState::Ready.code()
                                } else {
                                    MemberState::NotReady.code()
                                },
                                ..m
                            },
                        ),
                    )
                }
            }
        }),
{
    let user_id = packet.get_user_id();
    let cpc = match msg {
        Some(m) => m,
        None => return Ok(Reply::Refused(Refusal::DecodeFailed)),
    };
    let prepare = cpc.prepare;
    let (t, id) = match rm.get_room_loc(&user_id) {
        Some(l) => l,
        None => return Ok(Reply::Refused(Refusal::NotInRoom)),
    };
    {
        let room = rm.room_ref(t, id);
        if room.get_state() != RoomState::Await {
            return Err(RoomError::RoomStarted { room_id: room.get_room_id() });
        }
        let member = match room.get_member_ref(&user_id) {
            Some(m) => m,
            None => return Ok(Reply::Refused(Refusal::MemberNotFound)),
        };
        let cter_id = member.chose_cter.cter_id;
        if cter_id == 0 {
            return Ok(Reply::Refused(Refusal::CharacterNotChosen));
        }
        let cter_temp = templates.characters.get(&cter_id).unwrap();
        if prepare && member.chose_cter.skills.len() < cter_temp.usable_skill_count as usize {
            return Ok(Reply::Refused(Refusal::SkillsNotChosen));
        }
    }
    let mut room = rm.take_room(t, id);
    room.prepare_cancel(&user_id, prepare);
    proof {
        lemma_take_then_put(old(rm)@, t, id, room@);
    }
    rm.put_room(t, id, room);
    Ok(Reply::Done(Vec::new()))
}

/// A player moves to another team of its custom room.
///
/// The room is looked up by the room id the player is filed under, among
/// the custom rooms.
pub fn change_team(rm: &mut RoomMgr, packet: Packet, msg: Option<CChangeTeam>) -> (res: Result<Reply, RoomError>)
    requires
        old(rm)@.wf(),
    ensures
        final(rm)@.wf(),
        ({
            let uid = packet.user_id;
            let o = old(rm)@;
            let n = final(rm)@;
            if msg is None {
                refused(res, Refusal::DecodeFailed) && n == o
            } else if msg.unwrap().target_team_id < TEAM_ID_MIN || msg.unwrap().target_team_id
                > TEAM_ID_MAX {
                refused(res, Refusal::InvalidTeam) && n == o
            } else if o.room_id_of(uid) is None || !o.custom_rooms.contains_key(
                o.room_id_of(uid).unwrap(),
            ) {
                refused(res, Refusal::NotInRoom) && n == o
            } else {
                let id = o.room_id_of(uid).unwrap();
                let r = o.custom_rooms[id];
                let team = msg.unwrap().target_team_id as u8;
                if r.is_started() {
                    res == Err::<Reply, RoomError>(RoomError::RoomStarted { room_id: id }) && n == o
                } else if r.members.contains_key(uid) {
                    done_silent(res) && n == o.set_room(
                        RoomType::Custom,
                        id,
                        r.set_member(uid, MemberView { team_id: team, ..r.members[uid] }),
                    )
                } else {
                    done_silent(res) && n == o
                }
            }
        }),
{
    let user_id = packet.get_user_id();
    let cct = match msg {
        Some(m) => m,
        None => return Ok(Reply::Refused(Refusal::DecodeFailed)),
    };
    let team_id = cct.target_team_id;
    if team_id < TEAM_ID_MIN || team_id > TEAM_ID_MAX {
        return Ok(Reply::Refused(Refusal::InvalidTeam));
    }
    let room_id = match rm.get_room_id(&user_id) {
        Some(id) => id,
        None => return Ok(Reply::Refused(Refusal::NotInRoom)),
    };
    if !rm.custom_room.rooms.contains_key(&room_id) {
        return Ok(Reply::Refused(Refusal::NotInRoom));
    }
    if rm.room_ref(RoomType::Custom, room_id).is_started() {
        return Err(RoomError::RoomStarted { room_id: rm.room_ref(RoomType::Custom, room_id).get_room_id() });
    }
    let mut room = rm.take_room(RoomType::Custom, room_id);
    room.change_team(&user_id, &(team_id as u8));
    proof {
        lemma_take_then_put(old(rm)@, RoomType::Custom, room_id, room@);
    }
    rm.put_room(RoomType::Custom, room_id, room);
    proof {
        if !old(rm)@.custom_rooms[room_id].members.contains_key(user_id) {
            lemma_put_back(old(rm)@, RoomType::Custom, room_id);
        }
    }
    Ok(Reply::Done(Vec::new()))
}

/// The owner of a custom room removes another member from it; the member
/// is no longer filed under any room.
pub fn kick_member(rm: &mut RoomMgr, packet: Packet, msg: Option<CKickMember>) -> (res: Result<Reply, RoomError>)
    requires
        old(rm)@.wf(),
    ensures
        final(rm)@.wf(),
        ({
            let uid = packet.user_id;
            let o = old(rm)@;
            let n = final(rm)@;
            if msg is None {
                refused(res, Refusal::DecodeFailed) && n == o
            } else if o.room_of(uid) is None {
                refused(res, Refusal::NotInRoom) && n == o
            } else {
                let t = o.loc(uid).unwrap().0;
                let id = o.loc(uid).unwrap().1;
                let r = o.rooms(t)[id];
                let target = msg.unwrap().target_id;
                if r.is_started() {
                    res == Err::<Reply, RoomError>(RoomError::RoomStarted { room_id: id }) && n == o
                } else if r.room_type != RoomType::Custom {
                    refused(res, Refusal::NotCustomRoom) && n == o
                } else if r.owner_id != uid {
                    refused(res, Refusal::NotOwner) && n == o
                } else if !r.members.contains_key(target) {
                    refused(res, Refusal::TargetNotInRoom) && n == o
                } else if target == r.owner_id {
                    refused(res, Refusal::KickFailed) && n == o
                } else {
                    done_silent(res) && n == (RoomMgrView {
                        player_room: o.player_room.remove(target),
                        ..o.set_room(t, id, RoomView { members: r.members.remove(target), ..r })
                    })
                }
            }
        }),
{
    let user_id = packet.get_user_id();
    let ckm = match msg {
        Some(m) => m,
        None => return Ok(Reply::Refused(Refusal::DecodeFailed)),
    };
    let target_id = ckm.target_id;
    let (t, id) = match rm.get_room_loc(&user_id) {
        Some(l) => l,
        None => return Ok(Reply::Refused(Refusal::NotInRoom)),
    };
    {
        let room = rm.room_ref(t, id);
        if room.is_started() {
            return Err(RoomError::RoomStarted { room_id: room.get_room_id() });
        }
        if room.get_room_type() != RoomType::Custom {
            return Ok(Reply::Refused(Refusal::NotCustomRoom));
        }
        if room.get_owner_id() != user_id {
            return Ok(Reply::Refused(Refusal::NotOwner));
        }
        if !room.is_exist_member(&target_id) {
            return Ok(Reply::Refused(Refusal::TargetNotInRoom));
        }
    }
    let mut room = rm.take_room(t, id);
    let res = room.kick_member(&user_id, &target_id);
    proof {
        lemma_take_then_put(old(rm)@, t, id, room@);
    }
    rm.put_room(t, id, room);
    match res {
        Ok(_) => {
            rm.unfile_player(&target_id);
        },
        Err(e) => {
            proof {
                lemma_put_back(old(rm)@, t, id);
            }
            return Ok(Reply::Refused(e));
        },
    }
    Ok(Reply::Done(Vec::new()))
}

/// The setting `set_type` changes to `value`.
pub open spec fn apply_setting(s: RoomSetting, set_type: u32, value: u32) -> RoomSetting {
    let k = RoomSettingType::spec_from(set_type);
    if k == RoomSettingType::IsOpenAI {
        RoomSetting { is_open_ai: value == 1, ..s }
    } else if k == RoomSettingType::SeasonId {
        RoomSetting { season_id: value, ..s }
    } else if k == RoomSettingType::TurnLimitTime {
        RoomSetting { turn_limit_time: value, ..s }
    } else {
        s
    }
}

/// The owner of a waiting room, not yet ready, changes one setting of it.
/// The owner is told it succeeded and the room's state goes to its members.
pub fn room_setting(rm: &mut RoomMgr, packet: Packet, msg: Option<CRoomSetting>) -> (res: Result<Reply, RoomError>)
    requires
        old(rm)@.wf(),
    ensures
        final(rm)@.wf(),
        (res matches Ok(Reply::Done(_)) && msg is Some && msg.unwrap().set_type == 1) ==> ({
            let l = old(rm)@.loc(packet.user_id).unwrap();
            &&& final(rm)@.rooms(l.0).contains_key(l.1)
            &&& final(rm)@.rooms(l.0)[l.1].setting.is_open_ai == (msg.unwrap().value == 1)
        }),
        ({
            let uid = packet.user_id;
            let o = old(rm)@;
            let n = final(rm)@;
            if o.room_of(uid) is None {
                refused(res, Refusal::NotInRoom) && n == o
            } else {
                let t = o.loc(uid).unwrap().0;
                let id = o.loc(uid).unwrap().1;
                let r = o.rooms(t)[id];
                if r.state != RoomState::Await {
                    res == Err::<Reply, RoomError>(RoomError::SettingLocked { room_id: id }) && n == o
                } else if !r.members.contains_key(uid) {
                    refused(res, Refusal::MemberNotFound) && n == o
                } else if r.owner_id != uid {
                    refused(res, Refusal::NotOwner) && n == o
                } else if r.members[uid].state == MemberState::Ready.code() {
                    refused(res, Refusal::MemberReady) && n == o
                } else if msg is None {
                    refused(res, Refusal::DecodeFailed) && n == o
                } else {
                    &&& n == o.set_room(
                        t,
                        id,
                        RoomView {
                            setting: apply_setting(r.setting, msg.unwrap().set_type, msg.unwrap().value),
                            ..r
                        },
                    )
                    &&& res matches Ok(Reply::Done(ns))
                    &&& ns@.len() == 2
                    &&& ns@[0] == (Notice::RoomSetting { user_id: uid, is_succ: true })
                    &&& ns@[1] == (Notice::RoomNotice { room_id: id })
                }
            }
        }),
{
    let user_id = packet.get_user_id();
    let (t, id) = match rm.get_room_loc(&user_id) {
        Some(l) => l,
        None => return Ok(Reply::Refused(Refusal::NotInRoom)),
    };
    {
        let room = rm.room_ref(t, id);
        if room.get_state() != RoomState::Await {
            return Err(RoomError::SettingLocked { room_id: room.get_room_id() });
        }
        if !room.is_exist_member(&user_id) {
            return Ok(Reply::Refused(Refusal::MemberNotFound));
        }
        if room.get_owner_id() != user_id {
            return Ok(Reply::Refused(Refusal::NotOwner));
        }
        let member = room.get_member_ref(&user_id).unwrap();
        if member.state == MemberState::Ready.into_u8() {
            return Ok(Reply::Refused(Refusal::MemberReady));
        }
    }
    let rs = match msg {
        Some(m) => m,
        None => return Ok(Reply::Refused(Refusal::DecodeFailed)),
    };
    let mut room = rm.take_room(t, id);
    let set_type = rs.set_type;
    match RoomSettingType::from_u32(set_type) {
        RoomSettingType::IsOpenAI => {
            room.setting.is_open_ai = rs.value == 1;
        },
        RoomSettingType::SeasonId => {
            room.setting.season_id = rs.value;
        },
        RoomSettingType::TurnLimitTime => {
            room.setting.turn_limit_time = rs.value;
        },
        _ => {},
    }
    proof {
        lemma_take_then_put(old(rm)@, t, id, room@);
        assert(room@ =~= RoomView {
            setting: apply_setting(old(rm)@.rooms(t)[id].setting, rs.set_type, rs.value),
            ..old(rm)@.rooms(t)[id]
        });
    }
    rm.put_room(t, id, room);
    let mut notices: Vec<Notice> = Vec::new();
    notices.push(Notice::RoomSetting { user_id, is_succ: true });
    notices.push(Notice::RoomNotice { room_id: id });
    Ok(Reply::Done(notices))
}

/// A ready member sends an emoji to its room. The emoji must exist, need no
/// unlocking, and, where it belongs to a character, belong to the one the
/// member chose.
pub fn emoji(rm: &mut RoomMgr, templates: &Templates, packet: Packet, msg: Option<CEmoji>) -> (res: Result<Reply, RoomError>)
    ensures
        final(rm)@ == old(rm)@,
        ({
            let uid = packet.user_id;
            let o = old(rm)@;
            if o.room_of(uid) is None {
                refused(res, Refusal::NotInRoom)
            } else {
                let r = o.room_of(uid).unwrap();
                let m = r.members[uid];
                let e = templates.emojis@[msg.unwrap().emoji_id];
                if !r.members.contains_key(uid) {
                    refused(res, Refusal::MemberNotFound)
                } else if m.state != MemberState::Ready.code() {
                    refused(res, Refusal::MemberNotReady)
                } else if msg is None {
                    refused(res, Refusal::DecodeFailed)
                } else if !templates.emojis@.contains_key(msg.unwrap().emoji_id) {
                    refused(res, Refusal::EmojiNotFound)
                } else if e.condition != 0 {
                    refused(res, Refusal::EmojiLocked)
                } else if e.cter_id > 0 && e.cter_id != m.chose_cter.cter_id {
                    refused(res, Refusal::EmojiCharacterMismatch)
                } else {
                    &&& res matches Ok(Reply::Done(ns))
                    &&& ns@.len() == 1
                    &&& ns@[0] == (Notice::Emoji {
                        room_id: o.loc(uid).unwrap().1,
                        user_id: uid,
                        emoji_id: msg.unwrap().emoji_id,
                    })
                }
            }
        }),
{
    let user_id = packet.get_user_id();
    let (t, id) = match rm.get_room_loc(&user_id) {
        Some(l) => l,
        None => return Ok(Reply::Refused(Refusal::NotInRoom)),
    };
    let room = rm.room_ref(t, id);
    let member = match room.get_member_ref(&user_id) {
        Some(m) => m,
        None => return Ok(Reply::Refused(Refusal::MemberNotFound)),
    };
    if member.state != MemberState::Ready.into_u8() {
        return Ok(Reply::Refused(Refusal::MemberNotReady));
    }
    let ce = match msg {
        Some(m) => m,
        None => return Ok(Reply::Refused(Refusal::DecodeFailed)),
    };
    let emoji_id = ce.emoji_id;
    let emoji = match templates.emojis.get(&emoji_id) {
        Some(e) => e,
        None => return Ok(Reply::Refused(Refusal::EmojiNotFound)),
    };
    if emoji.condition != 0 {
        return Ok(Reply::Refused(Refusal::EmojiLocked));
    } else if emoji.condition == 0 && emoji.cter_id > 0 && emoji.cter_id != member.chose_cter.cter_id {
        return Ok(Reply::Refused(Refusal::EmojiCharacterMismatch));
    }
    let mut notices: Vec<Notice> = Vec::new();
    notices.push(Notice::Emoji { room_id: id, user_id, emoji_id });
    Ok(Reply::Done(notices))
}

/// The player whose turn it is to pick a turn order passes; the battle
/// engine moves on to the next player.
pub fn skip_choice_turn(rm: &mut RoomMgr, packet: Packet) -> (res: Result<Reply, RoomError>)
    ensures
        final(rm)@ == old(rm)@,
        ({
            let uid = packet.user_id;
            let o = old(rm)@;
            if o.room_of(uid) is None {
                refused(res, Refusal::NotInRoom)
            } else if !o.room_of(uid).unwrap().can_choice_turn_now(uid) {
                refused(res, Refusal::NotYourTurn)
            } else {
                &&& res matches Ok(Reply::Accepted(a, ns))
                &&& a == (BattleAction::SkipChoiceTurn { room_id: o.loc(uid).unwrap().1, user_id: uid })
                &&& ns@.len() == 0
            }
        }),
{
    let user_id = packet.get_user_id();
    let (t, id) = match rm.get_room_loc(&user_id) {
        Some(l) => l,
        None => return Ok(Reply::Refused(Refusal::NotInRoom)),
    };
    let room = rm.room_ref(t, id);
    if !room.is_can_choice_turn_now(user_id) {
        return Ok(Reply::Refused(Refusal::NotYourTurn));
    }
    Ok(Reply::Accepted(BattleAction::SkipChoiceTurn { room_id: id, user_id }, Vec::new()))
}

/// Whether a room is to be closed: nobody is left, or its battle is over.
pub open spec fn needs_removal(r: RoomView) -> bool {
    r.members.is_empty() || r.state == RoomState::BattleOvered
}

/// A player leaves its room, on request or because its connection ended.
///
/// On request, the room must still be waiting and the player not ready.
/// The room loses the member, which is then filed under no room; a player
/// leaving a match room is also told it left. A room that is left empty or
/// whose battle is over is closed, and the players still filed under it are
/// no longer filed under any room.
pub fn leave_room(rm: &mut RoomMgr, packet: Packet) -> (res: Result<Reply, RoomError>)
    requires
        old(rm)@.wf(),
    ensures
        final(rm)@.wf(),
        (res matches Ok(Reply::Done(_)) && old(rm)@.room_of(packet.user_id) is Some) ==> ({
            let uid = packet.user_id;
            let t = old(rm)@.loc(uid).unwrap().0;
            let id = old(rm)@.loc(uid).unwrap().1;
            let r = old(rm)@.rooms(t)[id];
            (r.state != RoomState::BattleOvered && exists|w: u32| w != uid && #[trigger] r.members.contains_key(w))
                ==> {
                &&& final(rm)@.player_room == old(rm)@.player_room.remove(uid)
                &&& final(rm)@.rooms(t) == old(rm)@.rooms(t).insert(id, RoomView { members: r.members.remove(uid), ..r })
            }
        }),
        ({
            let uid = packet.user_id;
            let o = old(rm)@;
            let n = final(rm)@;
            let leave = packet.cmd == RoomCode::LeaveRoom;
            if o.room_of(uid) is None {
                refused(res, Refusal::NotInRoom) && n == o
            } else {
                let t = o.loc(uid).unwrap().0;
                let id = o.loc(uid).unwrap().1;
                let r = o.rooms(t)[id];
                let r2 = r.without_member(uid);
                if leave && r.state != RoomState::Await {
                    refused(res, Refusal::RoomStarted) && n == o
                } else if leave && !r.members.contains_key(uid) {
                    refused(res, Refusal::MemberNotFound) && n == o
                } else if leave && r.members[uid].state == MemberState::Ready.code() {
                    refused(res, Refusal::MemberReady) && n == o
                } else if t == RoomType::Custom {
                    if !r.members.contains_key(uid) {
                        refused(res, Refusal::LeaveFailed) && n == o
                    } else if needs_removal(r2) {
                        done_silent(res) && n == (RoomMgrView {
                            player_room: o.player_room.remove(uid).remove_keys(r2.members.dom()),
                            ..o.remove_room(t, id)
                        })
                    } else {
                        done_silent(res) && n == (RoomMgrView {
                            player_room: o.player_room.remove(uid),
                            ..o.set_room(t, id, r2)
                        })
                    }
                } else if r.members.is_empty() {
                    done_silent(res) && n == o
                } else if !r.members.contains_key(uid) {
                    refused(res, Refusal::LeaveFailed) && n == o
                } else {
                    &&& res matches Ok(Reply::Done(ns))
                    &&& ns@.len() == 1
                    &&& ns@[0] == (Notice::LeaveRoom { user_id: uid, is_succ: true })
                    &&& n == if needs_removal(r2) {
                        RoomMgrView {
                            player_room: o.player_room.remove(uid).remove_keys(r2.members.dom()),
                            waiting: waiting_without(o.waiting, r.setting.battle_type.code(), id),
                            ..o.remove_room(t, id)
                        }
                    } else {
                        RoomMgrView { player_room: o.player_room.remove(uid), ..o.set_room(t, id, r2) }
                    }
                }
            }
        }),
{
    let user_id = packet.get_user_id();
    let (t, id) = match rm.get_room_loc(&user_id) {
        Some(l) => l,
        None => return Ok(Reply::Refused(Refusal::NotInRoom)),
    };
    let is_leave_cmd = packet.get_cmd() == RoomCode::LeaveRoom;
    let room_id: u32;
    let room_type: RoomType;
    let battle_type: BattleType;
    {
        let room = rm.room_ref(t, id);
        if room.get_state() != RoomState::Await && is_leave_cmd {
            return Ok(Reply::Refused(Refusal::RoomStarted));
        }
        room_id = room.get_room_id();
        if is_leave_cmd {
            match room.get_member_ref(&user_id) {
                None => return Ok(Reply::Refused(Refusal::MemberNotFound)),
                Some(member) => {
                    if member.state == MemberState::Ready.into_u8() {
                        return Ok(Reply::Refused(Refusal::MemberReady));
                    }
                },
            }
        }
        room_type = room.get_room_type();
        battle_type = room.setting.battle_type;
    }
    match room_type {
        RoomType::Custom => {
            if let Err(e) = rm.leave_member(RoomType::Custom, room_id, &user_id) {
                return Ok(Reply::Refused(e));
            }
            rm.unfile_player(&user_id);
            let room = rm.room_ref(RoomType::Custom, room_id);
            let need_rm_room = room.is_empty() || room.state == RoomState::BattleOvered;
            if need_rm_room {
                let ids = room.member_ids();
                rm.unfile_players(&ids);
                rm.rm_custom_room(&room_id);
                assert(final(rm)@ =~= RoomMgrView {
                    player_room: old(rm)@.player_room.remove(user_id).remove_keys(
                        old(rm)@.rooms(t)[id].without_member(user_id).members.dom(),
                    ),
                    ..old(rm)@.remove_room(t, id)
                });
            } else {
                assert(final(rm)@ =~= RoomMgrView {
                    player_room: old(rm)@.player_room.remove(user_id),
                    ..old(rm)@.set_room(t, id, old(rm)@.rooms(t)[id].without_member(user_id))
                });
            }
            Ok(Reply::Done(Vec::new()))
        },
        RoomType::Match => {
            let mut notices: Vec<Notice> = Vec::new();
            if !rm.room_ref(RoomType::Match, room_id).is_empty() {
                if let Err(e) = rm.leave_member(RoomType::Match, room_id, &user_id) {
                    return Ok(Reply::Refused(e));
                }
                notices.push(Notice::LeaveRoom { user_id, is_succ: true });
                rm.unfile_player(&user_id);
                let room = rm.room_ref(RoomType::Match, room_id);
                let need_rm_room = room.is_empty() || room.state == RoomState::BattleOvered;
                if need_rm_room {
                    let ids = room.member_ids();
                    rm.unfile_players(&ids);
                    rm.rm_match_room(battle_type.into_u8(), room_id);
                    assert(final(rm)@ =~= RoomMgrView {
                        player_room: old(rm)@.player_room.remove(user_id).remove_keys(
                            old(rm)@.rooms(t)[id].without_member(user_id).members.dom(),
                        ),
                        waiting: waiting_without(
                            old(rm)@.waiting,
                            old(rm)@.rooms(t)[id].setting.battle_type.code(),
                            id,
                        ),
                        ..old(rm)@.remove_room(t, id)
                    });
                } else {
                    assert(final(rm)@ =~= RoomMgrView {
                        player_room: old(rm)@.player_room.remove(user_id),
                        ..old(rm)@.set_room(t, id, old(rm)@.rooms(t)[id].without_member(user_id))
                    });
                }
            }
            Ok(Reply::Done(notices))
        },
        _ => Ok(Reply::Done(Vec::new())),
    }
}

/// The character a member ends up with when choosing `cter_id`: the one it
/// owns under that id, or the empty choice.
pub open spec fn chosen_character(m: MemberView, cter_id: u32) -> CharacterView {
    if m.cters.contains_key(cter_id) {
        m.cters[cter_id]
    } else {
        Character::spec_default()
    }
}

/// The member a notice about a chosen character is addressed to.
pub open spec fn notice_to(n: Notice) -> u32 {
    match n {
        Notice::ChooseCharacterNotice { to, .. } => to,
        _ => 0,
    }
}

/// Where `choose_character` reaches the player's member record, there is one.
pub open spec fn choose_character_ok(rm: RoomMgrView, uid: u32, msg: Option<CChooseCharacter>) -> bool {
    match rm.room_of(uid) {
        Some(r) => (!r.is_started() && msg is Some && (msg.unwrap().cter_id == 0
            || !r.character_taken(msg.unwrap().cter_id))) ==> r.members.contains_key(uid),
        None => true,
    }
}

/// A member of a waiting room, not yet ready, chooses one of its characters
/// (or id 0 for none). Nobody else in the room may hold that character. The
/// member is told it succeeded, and every member learns the choice.
pub fn choose_character(rm: &mut RoomMgr, packet: Packet, msg: Option<CChooseCharacter>) -> (res: Result<Reply, RoomError>)
    requires
        old(rm)@.wf(),
        choose_character_ok(old(rm)@, packet.user_id, msg),
    ensures
        final(rm)@.wf(),
        ({
            let uid = packet.user_id;
            let o = old(rm)@;
            let n = final(rm)@;
            if o.room_of(uid) is None {
                refused(res, Refusal::NotInRoom) && n == o
            } else {
                let t = o.loc(uid).unwrap().0;
                let id = o.loc(uid).unwrap().1;
                let r = o.rooms(t)[id];
                let c = msg.unwrap().cter_id;
                let m = r.members[uid];
                let ch = chosen_character(m, c);
                if r.is_started() {
                    refused(res, Refusal::RoomStarted) && n == o
                } else if msg is None {
                    refused(res, Refusal::DecodeFailed) && n == o
                } else if c != 0 && r.character_taken(c) {
                    refused(res, Refusal::CharacterTaken) && n == o
                } else if m.state == MemberState::Ready.code() {
                    refused(res, Refusal::MemberReady) && n == o
                } else if c > 0 && !m.cters.contains_key(c) {
                    refused(res, Refusal::CharacterNotOwned) && n == o
                } else {
                    &&& n == o.set_room(t, id, r.set_member(uid, MemberView { chose_cter: ch, ..m }))
                    &&& res matches Ok(Reply::Done(ns))
                    &&& ns@.len() >= 1
                    &&& ns@[0] == (Notice::ChooseCharacter { user_id: uid, is_succ: true })
                    &&& ns@.skip(1).map_values(|x: Notice| notice_to(x)).to_set() == r.members.dom()
                    &&& ns@.skip(1).map_values(|x: Notice| notice_to(x)).no_duplicates()
                    &&& forall|i: int|
                        1 <= i < ns@.len() ==> (#[trigger] ns@[i] matches Notice::ChooseCharacterNotice {
                            user_id,
                            cter_id,
                            cter_grade,
                            ..
                        } && user_id == uid && cter_id == c && cter_grade == ch.grade)
                }
            }
        }),
{
    let user_id = packet.get_user_id();
    let (t, id) = match rm.get_room_loc(&user_id) {
        Some(l) => l,
        None => return Ok(Reply::Refused(Refusal::NotInRoom)),
    };
    let chosen: Character;
    let cter_id: u32;
    {
        let room = rm.room_ref(t, id);
        if room.is_started() {
            return Ok(Reply::Refused(Refusal::RoomStarted));
        }
        let ccc = match msg {
            Some(m) => m,
            None => return Ok(Reply::Refused(Refusal::DecodeFailed)),
        };
        cter_id = ccc.cter_id;
        if let Err(e) = room.check_character(cter_id) {
            return Ok(Reply::Refused(e));
        }
        let member = room.get_member_ref(&user_id).unwrap();
        if member.state == MemberState::Ready.into_u8() {
            return Ok(Reply::Refused(Refusal::MemberReady));
        }
        let cter = member.cters.get(&cter_id);
        if cter_id > 0 && cter.is_none() {
            return Ok(Reply::Refused(Refusal::CharacterNotOwned));
        }
        proof {
            assert(member@.cters.dom() == member.cters@.dom());
        }
        chosen = match cter {
            Some(c) => c.duplicate(),
            None => Character::new_default(),
        };
        assert(chosen@ == chosen_character(member@, cter_id));
    }
    let mut room = rm.take_room(t, id);
    let mut member = room.take_member(user_id);
    member.chose_cter = chosen;
    let grade = member.chose_cter.grade;
    room.put_member(user_id, member);
    assert(room@ =~= old(rm)@.rooms(t)[id].set_member(user_id, MemberView {
        chose_cter: chosen_character(old(rm)@.rooms(t)[id].members[user_id], cter_id),
        ..old(rm)@.rooms(t)[id].members[user_id]
    }));
    let ids = room.member_ids();
    proof {
        lemma_take_then_put(old(rm)@, t, id, room@);
        assert(room@.members.dom() =~= old(rm)@.rooms(t)[id].members.dom());
    }
    rm.put_room(t, id, room);
    let mut notices: Vec<Notice> = Vec::new();
    notices.push(Notice::ChooseCharacter { user_id, is_succ: true });
    let count = ids.len();
    for i in 0..count
        invariant
            count == ids@.len(),
            notices@.len() == i + 1,
            notices@[0] == (Notice::ChooseCharacter { user_id, is_succ: true }),
            forall|j: int|
                0 <= j < i ==> #[trigger] notices@[j + 1] == (Notice::ChooseCharacterNotice {
                    to: ids@[j],
                    user_id,
                    cter_id,
                    cter_grade: grade,
                }),
    {
        notices.push(Notice::ChooseCharacterNotice { to: ids[i], user_id, cter_id, cter_grade: grade });
    }
    proof {
        assert(notices@.skip(1).map_values(|x: Notice| notice_to(x)) =~= ids@);
        assert forall|i: int| 1 <= i < notices@.len() implies (#[trigger] notices@[i] matches Notice::ChooseCharacterNotice {
            user_id: u,
            cter_id: cc,
            cter_grade: g,
            ..
        } && u == user_id && cc == cter_id && g == grade) by {
            assert(notices@[(i - 1) + 1] == notices@[i]);
        }
    }
    Ok(Reply::Done(notices))
}

/// Every skill in `skills` is one of `owned`.
pub open spec fn skills_owned(skills: Seq<u32>, owned: Seq<u32>) -> bool {
    forall|i: int| 0 <= i < skills.len() ==> owned.contains(#[trigger] skills[i])
}

/// Two of the picked skills, at different positions, come from one group.
pub open spec fn group_conflict(groups: Seq<Seq<u32>>, skills: Seq<u32>) -> bool {
    exists|g: int, i: int, j: int|
        0 <= g < groups.len() && 0 <= i < j < skills.len() && #[trigger] groups[g].contains(
            #[trigger] skills[i],
        ) && groups[g].contains(#[trigger] skills[j])
}

/// Where `choice_skills` reaches them, the member record, the owned
/// character it chose and that character's template exist.
pub open spec fn choice_skills_ok(rm: RoomMgrView, templates: &Templates, uid: u32, msg: Option<CChooseSkill>) -> bool {
    match rm.room_of(uid) {
        Some(r) => msg is Some ==> {
            &&& r.members.contains_key(uid)
            &&& r.members[uid].chose_cter.cter_id != 0 ==> {
                &&& r.members[uid].cters.contains_key(r.members[uid].chose_cter.cter_id)
                &&& (r.state == RoomState::Await && r.members[uid].state != MemberState::Ready.code())
                    ==> templates.characters@.contains_key(r.members[uid].chose_cter.cter_id)
            }
        },
        None => true,
    }
}

/// A member of a waiting room, not yet ready, picks the skills of its chosen
/// character: no more than the template allows, all owned by that character,
/// and no two from one skill group. The member is told which it picked.
#[verifier::loop_isolation(false)]
pub fn choice_skills(rm: &mut RoomMgr, templates: &Templates, packet: Packet, msg: Option<CChooseSkill>) -> (res: Result<Reply, RoomError>)
    requires
        old(rm)@.wf(),
        choice_skills_ok(old(rm)@, templates, packet.user_id, msg),
    ensures
        final(rm)@.wf(),
        ({
            let uid = packet.user_id;
            let o = old(rm)@;
            let n = final(rm)@;
            if msg is None {
                refused(res, Refusal::DecodeFailed) && n == o
            } else if o.room_of(uid) is None {
                refused(res, Refusal::NotInRoom) && n == o
            } else {
                let t = o.loc(uid).unwrap().0;
                let id = o.loc(uid).unwrap().1;
                let r = o.rooms(t)[id];
                let m = r.members[uid];
                let cid = m.chose_cter.cter_id;
                let skills = msg.unwrap().skills@;
                let temp = templates.characters@[cid];
                if cid == 0 {
                    refused(res, Refusal::CharacterNotChosen) && n == o
                } else if r.state != RoomState::Await {
                    refused(res, Refusal::RoomStarted) && n == o
                } else if m.state == MemberState::Ready.code() {
                    refused(res, Refusal::MemberReady) && n == o
                } else if skills.len() > temp.usable_skill_count {
                    refused(res, Refusal::SkillCountError) && n == o
                } else if !skills_owned(skills, m.cters[cid].skills) {
                    refused(res, Refusal::SkillNotOwned) && n == o
                } else if group_conflict(temp.groups(), skills) {
                    refused(res, Refusal::SkillGroupError) && n == o
                } else {
                    &&& n == o.set_room(
                        t,
                        id,
                        r.set_member(
                            uid,
                            MemberView { chose_cter: CharacterView { skills, ..m.chose_cter }, ..m },
                        ),
                    )
                    &&& res matches Ok(Reply::Done(ns))
                    &&& ns@.len() == 1
                    &&& ns@[0] matches Notice::ChooseSkill { user_id, is_succ, skills: s }
                    &&& user_id == uid && is_succ && s@ == skills
                }
            }
        }),
{
    let user_id = packet.get_user_id();
    let ccs = match msg {
        Some(m) => m,
        None => return Ok(Reply::Refused(Refusal::DecodeFailed)),
    };
    let skills = &ccs.skills;
    let (t, id) = match rm.get_room_loc(&user_id) {
        Some(l) => l,
        None => return Ok(Reply::Refused(Refusal::NotInRoom)),
    };
    {
        let room = rm.room_ref(t, id);
        let room_state = room.get_state();
        let member = room.get_member_ref(&user_id).unwrap();
        if member.chose_cter.cter_id == 0 {
            return Ok(Reply::Refused(Refusal::CharacterNotChosen));
        }
        let cter_id = member.chose_cter.cter_id;
        proof {
            assert(member@.cters.dom() == member.cters@.dom());
        }
        let cter = member.cters.get(&cter_id).unwrap();
        if room_state != RoomState::Await {
            return Ok(Reply::Refused(Refusal::RoomStarted));
        }
        if member.state == MemberState::Ready.into_u8() {
            return Ok(Reply::Refused(Refusal::MemberReady));
        }
        let cter_temp = templates.characters.get(&cter_id).unwrap();
        if skills.len() > cter_temp.usable_skill_count as usize {
            return Ok(Reply::Refused(Refusal::SkillCountError));
        }
        let n = skills.len();
        for i in 0..n
            invariant
                n == skills@.len(),
                forall|j: int| 0 <= j < i ==> cter.skills@.contains(#[trigger] skills@[j]),
        {
            if !vec_contains(&cter.skills, skills[i]) {
                return Ok(Reply::Refused(Refusal::SkillNotOwned));
            }
        }
        let groups = &cter_temp.skills;
        let gn = groups.len();
        for gi in 0..gn
            invariant
                gn == groups@.len(),
                n == skills@.len(),
                forall|g: int, i: int, j: int|
                    0 <= g < gi && 0 <= i < j < n ==> !(#[trigger] groups@[g].group@.contains(
                        #[trigger] skills@[i],
                    ) && groups@[g].group@.contains(#[trigger] skills@[j])),
        {
            let group = &groups[gi];
            let mut count: u32 = 0;
            let ghost mut first: int = 0;
            for k in 0..n
                invariant
                    n == skills@.len(),
                    count <= 1,
                    count == 0 ==> forall|j: int| 0 <= j < k ==> !group.group@.contains(#[trigger] skills@[j]),
                    count == 1 ==> 0 <= first < k && group.group@.contains(skills@[first]) && forall|j: int|
                        0 <= j < k && j != first ==> !group.group@.contains(#[trigger] skills@[j]),
            {
                if vec_contains(&group.group, skills[k]) {
                    count += 1;
                    if count >= 2 {
                        proof {
                            let gs = cter_temp.groups();
                            assert(gs[gi as int] == group.group@);
                            assert(gs[gi as int].contains(skills@[first]) && gs[gi as int].contains(
                                skills@[k as int],
                            ));
                        }
                        return Ok(Reply::Refused(Refusal::SkillGroupError));
                    }
                    proof {
                        first = k as int;
                    }
                }
            }
        }
        proof {
            let gs = cter_temp.groups();
            assert forall|g: int, i: int, j: int|
                0 <= g < gs.len() && 0 <= i < j < skills@.len() implies !(#[trigger] gs[g].contains(
                    #[trigger] skills@[i],
                ) && gs[g].contains(#[trigger] skills@[j])) by {
                assert(gs[g] == groups@[g].group@);
            }
        }
    }
    let picked = ccs.skills.clone();
    let mut room = rm.take_room(t, id);
    let mut member = room.take_member(user_id);
    member.chose_cter.skills = picked;
    room.put_member(user_id, member);
    proof {
        lemma_take_then_put(old(rm)@, t, id, room@);
        assert(room@ =~= old(rm)@.rooms(t)[id].set_member(user_id, MemberView {
            chose_cter: CharacterView { skills: ccs.skills@, ..old(rm)@.rooms(t)[id].members[user_id].chose_cter },
            ..old(rm)@.rooms(t)[id].members[user_id]
        }));
    }
    rm.put_room(t, id, room);
    let mut notices: Vec<Notice> = Vec::new();
    notices.push(Notice::ChooseSkill { user_id, is_succ: true, skills: ccs.skills });
    Ok(Reply::Done(notices))
}

/// The manager `o` with player `uid` filed under room `id` of type `t`.
pub open spec fn filed(o: RoomMgrView, uid: u32, t: RoomType, id: u32) -> RoomMgrView {
    RoomMgrView { player_room: o.player_room.insert(uid, room_value(t, id) as u64), ..o }
}

/// The game server opens a room for a player. Only custom rooms can be
/// opened, by a player not filed under any room; the player owns the new
/// room and is filed under it.
pub fn create_room(rm: &mut RoomMgr, packet: Packet, msg: Option<GRCreateRoom>) -> (res: Result<Reply, RoomError>)
    requires
        old(rm)@.wf(),
    ensures
        final(rm)@.wf(),
        ({
            let uid = packet.user_id;
            let o = old(rm)@;
            let n = final(rm)@;
            let rt = RoomType::from_code(msg.unwrap().room_type as u8);
            if msg is None {
                res == Err::<Reply, RoomError>(RoomError::Decode) && n == o
            } else if rt is None {
                refused(res, Refusal::InvalidRoomType) && n == o
            } else if rt == Some(RoomType::SeasonPve) || rt == Some(RoomType::WorldBossPve) {
                refused(res, Refusal::NotOpenYet) && n == o
            } else if rt != Some(RoomType::Custom) {
                refused(res, Refusal::InvalidRoomType) && n == o
            } else if o.room_id_of(uid) is Some {
                refused(res, Refusal::AlreadyInRoom) && n == o
            } else if o.next_custom_id == u32::MAX {
                res == Err::<Reply, RoomError>(RoomError::RoomIdsExhausted) && n == o
            } else {
                &&& done_silent(res)
                &&& opened_room(
                    filed(o, uid, RoomType::Custom, o.next_custom_id),
                    n,
                    RoomType::Custom,
                    o.next_custom_id,
                    msg.unwrap().pbp@,
                    BattleType::NoBattle,
                )
            }
        }),
{
    let grc = match msg {
        Some(m) => m,
        None => return Err(RoomError::Decode),
    };
    let room_type = match RoomType::try_from_u8(grc.room_type as u8) {
        Some(t) => t,
        None => return Ok(Reply::Refused(Refusal::InvalidRoomType)),
    };
    let user_id = packet.get_user_id();
    match room_type {
        RoomType::Custom => {
            if let Some(_room_id) = rm.get_room_id(&user_id) {
                return Ok(Reply::Refused(Refusal::AlreadyInRoom));
            }
        },
        RoomType::SeasonPve => {
            return Ok(Reply::Refused(Refusal::NotOpenYet));
        },
        RoomType::WorldBossPve => {
            return Ok(Reply::Refused(Refusal::NotOpenYet));
        },
        _ => {
            return Ok(Reply::Refused(Refusal::InvalidRoomType));
        },
    }
    let owner = grc.pbp;
    let ghost o = rm@;
    let room_id = rm.create_custom_room(BattleType::NoBattle, owner)?;
    rm.file_player(user_id, room_type, room_id);
    assert(final(rm)@ =~= RoomMgrView {
        custom_rooms: filed(o, user_id, RoomType::Custom, room_id).custom_rooms.insert(room_id, final(rm)@.custom_rooms[room_id]),
        next_custom_id: (room_id + 1) as u32,
        ..filed(o, user_id, RoomType::Custom, room_id)
    });
    Ok(Reply::Done(Vec::new()))
}

/// The game server asks for a match of a battle type for a player not
/// filed under any room. The player goes into the waiting match room of that
/// type, or into a new one, and is filed under it.
pub fn search_room(rm: &mut RoomMgr, packet: Packet, msg: Option<GRSearchRoom>) -> (res: Result<Reply, RoomError>)
    requires
        old(rm)@.wf(),
    ensures
        final(rm)@.wf(),
        done_silent(res) ==> ({
            &&& final(rm)@.loc(packet.user_id) is Some
            &&& final(rm)@.loc(packet.user_id).unwrap().0 == RoomType::Match
            &&& Some(final(rm)@.match_rooms[final(rm)@.loc(packet.user_id).unwrap().1].setting.battle_type)
                == BattleType::from_code(msg.unwrap().battle_type as u8)
            &&& final(rm)@.match_rooms[final(rm)@.loc(packet.user_id).unwrap().1].members.contains_key(
                msg.unwrap().pbp@.user_id,
            )
        }),
        ({
            let uid = packet.user_id;
            let o = old(rm)@;
            let n = final(rm)@;
            let bt = BattleType::from_code(msg.unwrap().battle_type as u8);
            let m = msg.unwrap().pbp@;
            if msg is None {
                refused(res, Refusal::DecodeFailed) && n == o
            } else if bt is None {
                refused(res, Refusal::InvalidBattleType) && n == o
            } else if bt.unwrap().code() < BattleType::OneVOneVOneVOne.code() || bt.unwrap().code()
                > BattleType::OneVOne.code() {
                refused(res, Refusal::InvalidBattleType) && n == o
            } else if o.player_room.contains_key(uid) {
                refused(res, Refusal::AlreadyInRoom) && n == o
            } else if joins_waiting(o, bt.unwrap(), m) {
                done_silent(res) && n == filed(
                    joined_waiting(o, bt.unwrap(), m),
                    uid,
                    RoomType::Match,
                    o.waiting[bt.unwrap().code()],
                )
            } else if o.next_match_id == u32::MAX {
                refused(res, Refusal::MatchFailed) && n == o
            } else {
                done_silent(res) && opened_room(
                    filed(o, uid, RoomType::Match, o.next_match_id),
                    n,
                    RoomType::Match,
                    o.next_match_id,
                    m,
                    bt.unwrap(),
                )
            }
        }),
{
    let grs = match msg {
        Some(m) => m,
        None => return Ok(Reply::Refused(Refusal::DecodeFailed)),
    };
    let battle_type = match BattleType::try_from_u8(grs.battle_type as u8) {
        Some(b) => b,
        None => return Ok(Reply::Refused(Refusal::InvalidBattleType)),
    };
    let user_id = packet.get_user_id();
    if battle_type.into_u8() < BattleType::OneVOneVOneVOne.into_u8() || battle_type.into_u8()
        > BattleType::OneVOne.into_u8() {
        return Ok(Reply::Refused(Refusal::InvalidBattleType));
    }
    if rm.check_player(&user_id) {
        return Ok(Reply::Refused(Refusal::AlreadyInRoom));
    }
    let member = grs.pbp;
    let ghost o = rm@;
    let ghost m = member@;
    let room_id = match rm.quickly_start(battle_type, member) {
        Ok(id) => id,
        Err(_) => return Ok(Reply::Refused(Refusal::MatchFailed)),
    };
    rm.file_player(user_id, RoomType::Match, room_id);
    proof {
        if !joins_waiting(o, battle_type, m) {
            assert(final(rm)@ =~= RoomMgrView {
                match_rooms: filed(o, user_id, RoomType::Match, room_id).match_rooms.insert(room_id, final(rm)@.match_rooms[room_id]),
                next_match_id: (room_id + 1) as u32,
                waiting: o.waiting.insert(battle_type.code(), room_id),
                ..filed(o, user_id, RoomType::Match, room_id)
            });
        } else {
            assert(final(rm)@ =~= filed(joined_waiting(o, battle_type, m), user_id, RoomType::Match, room_id));
        }
    }
    Ok(Reply::Done(Vec::new()))
}

/// The game server puts a player not filed under any room into a waiting
/// custom room with a free place; the player is filed under it.
pub fn join_room(rm: &mut RoomMgr, packet: Packet, msg: Option<GRJoinRoom>) -> (res: Result<Reply, RoomError>)
    requires
        old(rm)@.wf(),
    ensures
        final(rm)@.wf(),
        ({
            let uid = packet.user_id;
            let o = old(rm)@;
            let n = final(rm)@;
            let rid = msg.unwrap().room_id;
            let m = msg.unwrap().pbp@;
            let r = o.custom_rooms[rid];
            if msg is None {
                refused(res, Refusal::DecodeFailed) && n == o
            } else if o.player_room.contains_key(uid) {
                refused(res, Refusal::AlreadyInRoom) && n == o
            } else if !o.custom_rooms.contains_key(rid) {
                refused(res, Refusal::RoomNotFound) && n == o
            } else if r.is_started() {
                res == Err::<Reply, RoomError>(RoomError::RoomStarted { room_id: rid }) && n == o
            } else if r.room_type.code() > RoomType::WorldBossPve.code() || r.room_type == RoomType::Match {
                refused(res, Refusal::RoomNotJoinable) && n == o
            } else if r.members.len() >= MEMBER_MAX {
                refused(res, Refusal::RoomFull) && n == o
            } else if r.members.contains_key(uid) {
                refused(res, Refusal::AlreadyInRoom) && n == o
            } else if r.members.contains_key(m.user_id) {
                refused(res, Refusal::JoinFailed) && n == o
            } else {
                done_silent(res) && n == filed(
                    o.set_room(RoomType::Custom, rid, r.set_member(m.user_id, m)),
                    uid,
                    r.room_type,
                    rid,
                )
            }
        }),
{
    let user_id = packet.get_user_id();
    let grj = match msg {
        Some(m) => m,
        None => return Ok(Reply::Refused(Refusal::DecodeFailed)),
    };
    let room_id = grj.room_id;
    if rm.check_player(&user_id) {
        return Ok(Reply::Refused(Refusal::AlreadyInRoom));
    }
    if !rm.custom_room.rooms.contains_key(&room_id) {
        return Ok(Reply::Refused(Refusal::RoomNotFound));
    }
    let room_type: RoomType;
    {
        let room = rm.room_ref(RoomType::Custom, room_id);
        if room.is_started() {
            return Err(RoomError::RoomStarted { room_id: room.get_room_id() });
        }
        room_type = room.get_room_type();
        if room_type.into_u8() > RoomType::WorldBossPve.into_u8() || room_type == RoomType::Match {
            return Ok(Reply::Refused(Refusal::RoomNotJoinable));
        }
        if room.member_count() >= MEMBER_MAX as usize {
            return Ok(Reply::Refused(Refusal::RoomFull));
        }
        if room.is_exist_member(&user_id) {
            return Ok(Reply::Refused(Refusal::AlreadyInRoom));
        }
    }
    let member = grj.pbp;
    let mut room = rm.take_room(RoomType::Custom, room_id);
    let res = room.add_member(member);
    proof {
        lemma_take_then_put(old(rm)@, RoomType::Custom, room_id, room@);
    }
    let room_type = room.get_room_type();
    rm.put_room(RoomType::Custom, room_id, room);
    let joined = match res {
        Ok(id) => id,
        Err(e) => {
            proof {
                lemma_put_back(old(rm)@, RoomType::Custom, room_id);
            }
            return Ok(Reply::Refused(e));
        },
    };
    rm.file_player(user_id, room_type, joined);
    Ok(Reply::Done(Vec::new()))
}

/// A member starts the battle of its waiting room once every member is
/// ready; the battle engine takes over and the member is told it succeeded.
pub fn start(rm: &mut RoomMgr, packet: Packet) -> (res: Result<Reply, RoomError>)
    requires
        old(rm)@.wf(),
    ensures
        final(rm)@ == old(rm)@,
        ({
            let uid = packet.user_id;
            let o = old(rm)@;
            if o.room_of(uid) is None {
                refused(res, Refusal::NotInRoom)
            } else {
                let id = o.loc(uid).unwrap().1;
                let r = o.room_of(uid).unwrap();
                if r.is_started() {
                    res == Err::<Reply, RoomError>(RoomError::RoomStarted { room_id: id })
                } else if !r.all_ready() {
                    refused(res, Refusal::NotAllReady)
                } else {
                    &&& res matches Ok(Reply::Accepted(a, ns))
                    &&& a == (BattleAction::Start { room_id: id })
                    &&& ns@.len() == 1
                    &&& ns@[0] == (Notice::Start { user_id: uid, is_succ: true })
                }
            }
        }),
{
    let user_id = packet.get_user_id();
    let (t, id) = match rm.get_room_loc(&user_id) {
        Some(l) => l,
        None => return Ok(Reply::Refused(Refusal::NotInRoom)),
    };
    let room = rm.room_ref(t, id);
    if room.is_started() {
        return Err(RoomError::RoomStarted { room_id: room.get_room_id() });
    }
    if !room.check_ready() {
        return Ok(Reply::Refused(Refusal::NotAllReady));
    }
    let mut notices: Vec<Notice> = Vec::new();
    notices.push(Notice::Start { user_id, is_succ: true });
    Ok(Reply::Accepted(BattleAction::Start { room_id: room.get_room_id() }, notices))
}

/// Where `choice_index` reaches the player's battle character, there is one.
pub open spec fn choice_index_ok(rm: RoomMgrView, uid: u32, msg: Option<CChooseIndex>) -> bool {
    match rm.room_of(uid) {
        Some(r) => (msg is Some && r.battle_data.index_free(msg.unwrap().index as usize)
            && r.can_choice_index_now(uid)) ==> r.battle_data.battle_cter@.contains_key(uid),
        None => true,
    }
}

/// The player whose turn it is picks a free cell of the board as its
/// starting cell, unless it already picked one; the battle engine places it.
pub fn choice_index(rm: &mut RoomMgr, packet: Packet, msg: Option<CChooseIndex>) -> (res: Result<Reply, RoomError>)
    requires
        choice_index_ok(old(rm)@, packet.user_id, msg),
    ensures
        final(rm)@ == old(rm)@,
        ({
            let uid = packet.user_id;
            let o = old(rm)@;
            let r = o.room_of(uid).unwrap();
            let index = msg.unwrap().index;
            if msg is None {
                res == Err::<Reply, RoomError>(RoomError::Decode)
            } else if o.room_of(uid) is None {
                refused(res, Refusal::NotInRoom)
            } else if !r.battle_data.index_free(index as usize) {
                refused(res, Refusal::InvalidIndex)
            } else if !r.can_choice_index_now(uid) {
                refused(res, Refusal::NotYourTurn)
            } else if r.battle_data.battle_cter@[uid].index_chosen {
                refused(res, Refusal::IndexAlreadyChosen)
            } else {
                &&& res matches Ok(Reply::Accepted(a, ns))
                &&& a == (BattleAction::ChoiceIndex { room_id: o.loc(uid).unwrap().1, user_id: uid, index })
                &&& ns@.len() == 0
            }
        }),
{
    let user_id = packet.get_user_id();
    let ccl = match msg {
        Some(m) => m,
        None => return Err(RoomError::Decode),
    };
    let index = ccl.index;
    let (t, id) = match rm.get_room_loc(&user_id) {
        Some(l) => l,
        None => return Ok(Reply::Refused(Refusal::NotInRoom)),
    };
    let room = rm.room_ref(t, id);
    if let Err(e) = room.battle_data.check_choice_index(index as usize) {
        return Ok(Reply::Refused(e));
    }
    if !room.is_can_choice_index_now(user_id) {
        return Ok(Reply::Refused(Refusal::NotYourTurn));
    }
    let member = room.get_battle_cter_ref(&user_id).unwrap();
    if member.map_cell_index_is_choiced() {
        return Ok(Reply::Refused(Refusal::IndexAlreadyChosen));
    }
    Ok(Reply::Accepted(BattleAction::ChoiceIndex { room_id: id, user_id, index }, Vec::new()))
}

/// The player whose turn it is picks a turn order not above the last one,
/// unless it already holds one; the battle engine records it.
pub fn choice_turn(rm: &mut RoomMgr, packet: Packet, msg: Option<CChooseTurnOrder>) -> (res: Result<Reply, RoomError>)
    ensures
        final(rm)@ == old(rm)@,
        ({
            let uid = packet.user_id;
            let o = old(rm)@;
            let r = o.room_of(uid).unwrap();
            let order = msg.unwrap().order;
            if msg is None {
                res == Err::<Reply, RoomError>(RoomError::Decode)
            } else if o.room_of(uid) is None {
                refused(res, Refusal::NotInRoom)
            } else if order > MEMBER_MAX - 1 {
                refused(res, Refusal::InvalidOrder)
            } else if !r.can_choice_turn_now(uid) {
                refused(res, Refusal::NotYourTurn)
            } else if r.battle_data.turn_orders@.contains(uid) {
                refused(res, Refusal::OrderAlreadyChosen)
            } else {
                &&& res matches Ok(Reply::Accepted(a, ns))
                &&& a == (BattleAction::ChoiceTurn {
                    room_id: o.loc(uid).unwrap().1,
                    user_id: uid,
                    order: order as usize,
                })
                &&& ns@.len() == 0
            }
        }),
{
    let user_id = packet.get_user_id();
    let ccl = match msg {
        Some(m) => m,
        None => return Err(RoomError::Decode),
    };
    let order = ccl.order;
    let (t, id) = match rm.get_room_loc(&user_id) {
        Some(l) => l,
        None => return Ok(Reply::Refused(Refusal::NotInRoom)),
    };
    let room = rm.room_ref(t, id);
    if order > (MEMBER_MAX - 1) as u32 {
        return Ok(Reply::Refused(Refusal::InvalidOrder));
    }
    if !room.is_can_choice_turn_now(user_id) {
        return Ok(Reply::Refused(Refusal::NotYourTurn));
    }
    if room.turn_order_contains(&user_id) {
        return Ok(Reply::Refused(Refusal::OrderAlreadyChosen));
    }
    Ok(Reply::Accepted(BattleAction::ChoiceTurn { room_id: id, user_id, order: order as usize }, Vec::new()))
}

} // verus!

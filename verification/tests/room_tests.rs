use roomserver::binary::{combine_int_2_long, separate_long_2_int};
use roomserver::protocol::{
    BattleAction, CChangeTeam, CChooseCharacter, CChooseIndex, CChooseSkill, CChooseTurnOrder, CEmoji,
    CKickMember, CPrepareCancel, CRoomSetting, GRCreateRoom, GRJoinRoom, GRSearchRoom, Notice, Packet,
    Refusal, Reply, RoomCode, RoomError,
};
use roomserver::room::{BattleType, Character, Member, RoomState, RoomType};
use roomserver::room_handler::{
    change_team, choice_index, choice_skills, choice_turn, choose_character, create_room, emoji,
    join_room, kick_member, leave_room, prepare_cancel, reload_temps, room_setting, search_room,
    skip_choice_turn, start,
};
use roomserver::room_mgr::RoomMgr;
use roomserver::battle::{BattleBuffs, BattleCharacter, BaseAttr, FlowData, MapCell};
use roomserver::templates::{BuffTypes, CharacterTemp, EmojiTemp, SkillGroup, Templates};
use std::collections::HashMap;

fn empty_mgr() -> RoomMgr {
    RoomMgr::new()
}

fn character(cter_id: u32, grade: u32, skills: Vec<u32>) -> Character {
    Character { cter_id, grade, skills }
}

fn member(uid: u32) -> Member {
    let mut cters = HashMap::new();
    cters.insert(1001, character(1001, 2, vec![1, 2, 3]));
    cters.insert(1002, character(1002, 1, vec![4, 5]));
    Member { user_id: uid, state: 0, team_id: 1, chose_cter: character(0, 0, vec![]), cters }
}

fn pkt(cmd: RoomCode, user_id: u32) -> Packet {
    Packet { cmd, user_id }
}

fn buff_types() -> BuffTypes {
    BuffTypes {
        traps: vec![],
        trap_add_buff: vec![],
        trap_skill_damage: vec![],
        can_not_moved: 0,
        lock_skills: vec![],
        change_skill: vec![],
        attacked_add_energy: vec![],
        locked: 0,
        transform_buff: vec![],
        defense_near_move_skill_damage: vec![],
        trigger_scope_near: vec![],
        water_turret: 0,
        limit_turn_times: 0,
        limit_round_times: 0,
    }
}

fn templates() -> Templates {
    let mut characters = HashMap::new();
    characters.insert(
        1001,
        CharacterTemp {
            id: 1001,
            usable_skill_count: 2,
            skills: vec![SkillGroup { group: vec![1, 2] }, SkillGroup { group: vec![3] }],
        },
    );
    characters.insert(1002, CharacterTemp { id: 1002, usable_skill_count: 1, skills: vec![] });
    let mut emojis = HashMap::new();
    emojis.insert(1, EmojiTemp { id: 1, condition: 0, cter_id: 0 });
    emojis.insert(2, EmojiTemp { id: 2, condition: 1, cter_id: 0 });
    emojis.insert(3, EmojiTemp { id: 3, condition: 0, cter_id: 1002 });
    Templates { characters, emojis, skills: HashMap::new(), buffs: HashMap::new(), buff_types: buff_types() }
}

fn is_refused(res: &Result<Reply, RoomError>, r: Refusal) -> bool {
    matches!(res, Ok(Reply::Refused(x)) if *x == r)
}

fn is_done_silent(res: &Result<Reply, RoomError>) -> bool {
    matches!(res, Ok(Reply::Done(ns)) if ns.is_empty())
}

/// A manager with custom room 0 owned by player 1, which players 2 and 3
/// joined.
fn custom_room_of_three() -> RoomMgr {
    let mut rm = empty_mgr();
    let r = create_room(&mut rm, pkt(RoomCode::CreateRoom, 1), Some(GRCreateRoom { room_type: 1, pbp: member(1) }));
    assert!(is_done_silent(&r));
    for uid in [2u32, 3u32] {
        let r = join_room(&mut rm, pkt(RoomCode::JoinRoom, uid), Some(GRJoinRoom { room_id: 0, pbp: member(uid) }));
        assert!(is_done_silent(&r));
    }
    rm
}

#[test]
fn combine_packs_high_and_low_halves() {
    assert_eq!(combine_int_2_long(1, 2), 4294967298);
    assert_eq!(combine_int_2_long(0, 7), 7);
    assert_eq!(separate_long_2_int(4294967298), (1, 2));
    assert_eq!(separate_long_2_int(combine_int_2_long(u32::MAX, 5)), (u32::MAX, 5));
}

#[test]
fn reload_temps_changes_nothing() {
    let mut rm = custom_room_of_three();
    let r = reload_temps(&mut rm, pkt(RoomCode::ReloadTemps, 1));
    assert!(is_done_silent(&r));
    assert_eq!(rm.custom_room.rooms.len(), 1);
}

#[test]
fn create_room_opens_custom_room_for_owner() {
    let mut rm = empty_mgr();
    let r = create_room(&mut rm, pkt(RoomCode::CreateRoom, 7), Some(GRCreateRoom { room_type: 1, pbp: member(7) }));
    assert!(is_done_silent(&r));
    let room = rm.custom_room.rooms.get(&0).unwrap();
    assert_eq!(room.owner_id, 7);
    assert_eq!(room.room_type, RoomType::Custom);
    assert_eq!(room.state, RoomState::Await);
    assert!(room.members.contains_key(&7));
    assert_eq!(rm.player_room.get(&7), Some(&((1u64 << 32) | 0)));
    assert_eq!(rm.custom_room.next_room_id, 1);
}

#[test]
fn create_room_refusals_and_errors() {
    let mut rm = empty_mgr();
    assert_eq!(create_room(&mut rm, pkt(RoomCode::CreateRoom, 7), None).err(), Some(RoomError::Decode));
    let r = create_room(&mut rm, pkt(RoomCode::CreateRoom, 7), Some(GRCreateRoom { room_type: 9, pbp: member(7) }));
    assert!(is_refused(&r, Refusal::InvalidRoomType));
    let r = create_room(&mut rm, pkt(RoomCode::CreateRoom, 7), Some(GRCreateRoom { room_type: 3, pbp: member(7) }));
    assert!(is_refused(&r, Refusal::NotOpenYet));
    let r = create_room(&mut rm, pkt(RoomCode::CreateRoom, 7), Some(GRCreateRoom { room_type: 4, pbp: member(7) }));
    assert!(is_refused(&r, Refusal::NotOpenYet));
    let r = create_room(&mut rm, pkt(RoomCode::CreateRoom, 7), Some(GRCreateRoom { room_type: 2, pbp: member(7) }));
    assert!(is_refused(&r, Refusal::InvalidRoomType));
    // 257 read as a byte is 1, a custom room
    let r = create_room(&mut rm, pkt(RoomCode::CreateRoom, 7), Some(GRCreateRoom { room_type: 257, pbp: member(7) }));
    assert!(is_done_silent(&r));
    let r = create_room(&mut rm, pkt(RoomCode::CreateRoom, 7), Some(GRCreateRoom { room_type: 1, pbp: member(7) }));
    assert!(is_refused(&r, Refusal::AlreadyInRoom));
    let mut full = empty_mgr();
    full.custom_room.next_room_id = u32::MAX;
    let r = create_room(&mut full, pkt(RoomCode::CreateRoom, 8), Some(GRCreateRoom { room_type: 1, pbp: member(8) }));
    assert_eq!(r.err(), Some(RoomError::RoomIdsExhausted));
    assert!(full.custom_room.rooms.is_empty());
}

#[test]
fn join_room_fills_room_and_refuses_when_full() {
    let mut rm = custom_room_of_three();
    assert_eq!(rm.custom_room.rooms.get(&0).unwrap().members.len(), 3);
    assert_eq!(rm.player_room.get(&3), Some(&((1u64 << 32) | 0)));
    let r = join_room(&mut rm, pkt(RoomCode::JoinRoom, 2), Some(GRJoinRoom { room_id: 0, pbp: member(2) }));
    assert!(is_refused(&r, Refusal::AlreadyInRoom));
    let r = join_room(&mut rm, pkt(RoomCode::JoinRoom, 4), Some(GRJoinRoom { room_id: 5, pbp: member(4) }));
    assert!(is_refused(&r, Refusal::RoomNotFound));
    let r = join_room(&mut rm, pkt(RoomCode::JoinRoom, 4), None);
    assert!(is_refused(&r, Refusal::DecodeFailed));
    let r = join_room(&mut rm, pkt(RoomCode::JoinRoom, 4), Some(GRJoinRoom { room_id: 0, pbp: member(4) }));
    assert!(is_done_silent(&r));
    let r = join_room(&mut rm, pkt(RoomCode::JoinRoom, 5), Some(GRJoinRoom { room_id: 0, pbp: member(5) }));
    assert!(is_refused(&r, Refusal::RoomFull));
    assert!(!rm.player_room.contains_key(&5));
}

#[test]
fn join_room_refuses_member_already_there_under_other_id() {
    let mut rm = custom_room_of_three();
    let r = join_room(&mut rm, pkt(RoomCode::JoinRoom, 9), Some(GRJoinRoom { room_id: 0, pbp: member(2) }));
    assert!(is_refused(&r, Refusal::JoinFailed));
    assert!(!rm.player_room.contains_key(&9));
}

#[test]
fn join_room_errors_on_started_room() {
    let mut rm = custom_room_of_three();
    rm.custom_room.rooms.get_mut(&0).unwrap().state = RoomState::BattleStarted;
    let r = join_room(&mut rm, pkt(RoomCode::JoinRoom, 4), Some(GRJoinRoom { room_id: 0, pbp: member(4) }));
    assert_eq!(r.err(), Some(RoomError::RoomStarted { room_id: 0 }));
}

#[test]
fn search_room_fills_waiting_match_rooms() {
    let mut rm = empty_mgr();
    let r = search_room(&mut rm, pkt(RoomCode::SearchRoom, 1), Some(GRSearchRoom { battle_type: 0, pbp: member(1) }));
    assert!(is_refused(&r, Refusal::InvalidBattleType));
    let r = search_room(&mut rm, pkt(RoomCode::SearchRoom, 1), Some(GRSearchRoom { battle_type: 9, pbp: member(1) }));
    assert!(is_refused(&r, Refusal::InvalidBattleType));
    let r = search_room(&mut rm, pkt(RoomCode::SearchRoom, 1), None);
    assert!(is_refused(&r, Refusal::DecodeFailed));
    for uid in 1..=4u32 {
        let r = search_room(&mut rm, pkt(RoomCode::SearchRoom, uid), Some(GRSearchRoom { battle_type: 1, pbp: member(uid) }));
        assert!(is_done_silent(&r));
        assert_eq!(rm.player_room.get(&uid), Some(&((2u64 << 32) | 0)));
    }
    assert_eq!(rm.match_rooms.rooms.get(&0).unwrap().members.len(), 4);
    assert!(!rm.match_rooms.waiting.contains_key(&1));
    let r = search_room(&mut rm, pkt(RoomCode::SearchRoom, 5), Some(GRSearchRoom { battle_type: 1, pbp: member(5) }));
    assert!(is_done_silent(&r));
    assert_eq!(rm.player_room.get(&5), Some(&((2u64 << 32) | 1)));
    assert_eq!(rm.match_rooms.waiting.get(&1), Some(&1));
    let r = search_room(&mut rm, pkt(RoomCode::SearchRoom, 5), Some(GRSearchRoom { battle_type: 1, pbp: member(5) }));
    assert!(is_refused(&r, Refusal::AlreadyInRoom));
    let r = search_room(&mut rm, pkt(RoomCode::SearchRoom, 7), Some(GRSearchRoom { battle_type: 3, pbp: member(7) }));
    assert!(is_done_silent(&r));
    assert_eq!(rm.player_room.get(&7), Some(&((2u64 << 32) | 2)));
    assert_eq!(rm.match_rooms.rooms.get(&2).unwrap().setting.battle_type, BattleType::OneVOne);
    assert_eq!(rm.match_rooms.rooms.get(&0).unwrap().setting.battle_type, BattleType::OneVOneVOneVOne);
    let r = search_room(&mut rm, pkt(RoomCode::SearchRoom, 8), Some(GRSearchRoom { battle_type: 1, pbp: member(8) }));
    assert!(is_done_silent(&r));
    assert_eq!(rm.player_room.get(&8), Some(&((2u64 << 32) | 1)));
    rm.match_rooms.next_room_id = u32::MAX;
    let r = search_room(&mut rm, pkt(RoomCode::SearchRoom, 6), Some(GRSearchRoom { battle_type: 2, pbp: member(6) }));
    assert!(is_refused(&r, Refusal::MatchFailed));
}

#[test]
fn leave_custom_room_unfiles_leaver() {
    let mut rm = custom_room_of_three();
    let r = leave_room(&mut rm, pkt(RoomCode::LeaveRoom, 2));
    assert!(is_done_silent(&r));
    assert!(!rm.custom_room.rooms.get(&0).unwrap().members.contains_key(&2));
    assert!(!rm.player_room.contains_key(&2));
    let r = leave_room(&mut rm, pkt(RoomCode::LeaveRoom, 2));
    assert!(is_refused(&r, Refusal::NotInRoom));
    let r = join_room(&mut rm, pkt(RoomCode::JoinRoom, 2), Some(GRJoinRoom { room_id: 0, pbp: member(2) }));
    assert!(is_done_silent(&r));
    // A player filed under the room but no longer among its members.
    rm.custom_room.rooms.get_mut(&0).unwrap().members.remove(&2);
    let r = leave_room(&mut rm, pkt(RoomCode::LeaveRoom, 2));
    assert!(is_refused(&r, Refusal::MemberNotFound));
    let r = leave_room(&mut rm, pkt(RoomCode::OffLine, 2));
    assert!(is_refused(&r, Refusal::LeaveFailed));
}

#[test]
fn last_leaver_closes_custom_room() {
    let mut rm = empty_mgr();
    create_room(&mut rm, pkt(RoomCode::CreateRoom, 1), Some(GRCreateRoom { room_type: 1, pbp: member(1) })).unwrap();
    let r = leave_room(&mut rm, pkt(RoomCode::LeaveRoom, 1));
    assert!(is_done_silent(&r));
    assert!(rm.custom_room.rooms.is_empty());
    let r = leave_room(&mut rm, pkt(RoomCode::LeaveRoom, 1));
    assert!(is_refused(&r, Refusal::NotInRoom));
}

#[test]
fn leaving_an_over_battle_unfiles_everyone_left() {
    let mut rm = custom_room_of_three();
    rm.custom_room.rooms.get_mut(&0).unwrap().state = RoomState::BattleOvered;
    let r = leave_room(&mut rm, pkt(RoomCode::LeaveRoom, 2));
    assert!(is_refused(&r, Refusal::RoomStarted));
    let r = leave_room(&mut rm, pkt(RoomCode::OffLine, 2));
    assert!(is_done_silent(&r));
    assert!(rm.custom_room.rooms.is_empty());
    assert!(!rm.player_room.contains_key(&1));
    assert!(!rm.player_room.contains_key(&3));
    assert!(!rm.player_room.contains_key(&2));
}

#[test]
fn leave_refuses_ready_member() {
    let mut rm = custom_room_of_three();
    rm.custom_room.rooms.get_mut(&0).unwrap().members.get_mut(&3).unwrap().state = 1;
    let r = leave_room(&mut rm, pkt(RoomCode::LeaveRoom, 3));
    assert!(is_refused(&r, Refusal::MemberReady));
}

#[test]
fn leave_match_room_unfiles_and_tells_the_player() {
    let mut rm = empty_mgr();
    for uid in 1..=2u32 {
        search_room(&mut rm, pkt(RoomCode::SearchRoom, uid), Some(GRSearchRoom { battle_type: 2, pbp: member(uid) }))
            .unwrap();
    }
    let r = leave_room(&mut rm, pkt(RoomCode::LeaveRoom, 1)).unwrap();
    match r {
        Reply::Done(ns) => {
            assert_eq!(ns.len(), 1);
            assert!(matches!(ns[0], Notice::LeaveRoom { user_id: 1, is_succ: true }));
        },
        _ => panic!("expected done"),
    }
    assert!(!rm.player_room.contains_key(&1));
    assert!(rm.match_rooms.rooms.contains_key(&0));
    leave_room(&mut rm, pkt(RoomCode::LeaveRoom, 2)).unwrap();
    assert!(rm.match_rooms.rooms.is_empty());
    assert!(!rm.match_rooms.waiting.contains_key(&2));
    assert!(rm.player_room.is_empty());
}

#[test]
fn prepare_needs_character_and_skills() {
    let mut rm = custom_room_of_three();
    let t = templates();
    let r = prepare_cancel(&mut rm, &t, pkt(RoomCode::PrepareCancel, 2), Some(CPrepareCancel { prepare: true }));
    assert!(is_refused(&r, Refusal::CharacterNotChosen));
    let r = prepare_cancel(&mut rm, &t, pkt(RoomCode::PrepareCancel, 2), None);
    assert!(is_refused(&r, Refusal::DecodeFailed));
    let r = prepare_cancel(&mut rm, &t, pkt(RoomCode::PrepareCancel, 99), Some(CPrepareCancel { prepare: true }));
    assert!(is_refused(&r, Refusal::NotInRoom));
    choose_character(&mut rm, pkt(RoomCode::ChoiceCharacter, 2), Some(CChooseCharacter { cter_id: 1001 })).unwrap();
    rm.custom_room.rooms.get_mut(&0).unwrap().members.get_mut(&2).unwrap().chose_cter.skills = vec![3];
    let r = prepare_cancel(&mut rm, &t, pkt(RoomCode::PrepareCancel, 2), Some(CPrepareCancel { prepare: true }));
    assert!(is_refused(&r, Refusal::SkillsNotChosen));
    let r = prepare_cancel(&mut rm, &t, pkt(RoomCode::PrepareCancel, 2), Some(CPrepareCancel { prepare: false }));
    assert!(is_done_silent(&r));
    let r = choice_skills(&mut rm, &t, pkt(RoomCode::ChoiceSkills, 2), Some(CChooseSkill { skills: vec![1, 3] }));
    assert!(matches!(r, Ok(Reply::Done(_))));
    let r = prepare_cancel(&mut rm, &t, pkt(RoomCode::PrepareCancel, 2), Some(CPrepareCancel { prepare: true }));
    assert!(is_done_silent(&r));
    assert_eq!(rm.custom_room.rooms.get(&0).unwrap().members.get(&2).unwrap().state, 1);
    let r = prepare_cancel(&mut rm, &t, pkt(RoomCode::PrepareCancel, 2), Some(CPrepareCancel { prepare: false }));
    assert!(is_done_silent(&r));
    assert_eq!(rm.custom_room.rooms.get(&0).unwrap().members.get(&2).unwrap().state, 0);
    rm.custom_room.rooms.get_mut(&0).unwrap().state = RoomState::ChoiceTurn;
    let r = prepare_cancel(&mut rm, &t, pkt(RoomCode::PrepareCancel, 2), Some(CPrepareCancel { prepare: false }));
    assert_eq!(r.err(), Some(RoomError::RoomStarted { room_id: 0 }));
}

#[test]
fn change_team_checks_range_and_moves_member() {
    let mut rm = custom_room_of_three();
    let r = change_team(&mut rm, pkt(RoomCode::ChangeTeam, 2), Some(CChangeTeam { target_team_id: 0 }));
    assert!(is_refused(&r, Refusal::InvalidTeam));
    let r = change_team(&mut rm, pkt(RoomCode::ChangeTeam, 2), Some(CChangeTeam { target_team_id: 5 }));
    assert!(is_refused(&r, Refusal::InvalidTeam));
    let r = change_team(&mut rm, pkt(RoomCode::ChangeTeam, 2), None);
    assert!(is_refused(&r, Refusal::DecodeFailed));
    let r = change_team(&mut rm, pkt(RoomCode::ChangeTeam, 42), Some(CChangeTeam { target_team_id: 2 }));
    assert!(is_refused(&r, Refusal::NotInRoom));
    let r = change_team(&mut rm, pkt(RoomCode::ChangeTeam, 2), Some(CChangeTeam { target_team_id: 4 }));
    assert!(is_done_silent(&r));
    assert_eq!(rm.custom_room.rooms.get(&0).unwrap().members.get(&2).unwrap().team_id, 4);
    rm.custom_room.rooms.get_mut(&0).unwrap().state = RoomState::BattleStarted;
    let r = change_team(&mut rm, pkt(RoomCode::ChangeTeam, 2), Some(CChangeTeam { target_team_id: 3 }));
    assert_eq!(r.err(), Some(RoomError::RoomStarted { room_id: 0 }));
}

#[test]
fn kick_member_by_owner_only() {
    let mut rm = custom_room_of_three();
    let r = kick_member(&mut rm, pkt(RoomCode::Kick, 2), Some(CKickMember { target_id: 3 }));
    assert!(is_refused(&r, Refusal::NotOwner));
    let r = kick_member(&mut rm, pkt(RoomCode::Kick, 1), Some(CKickMember { target_id: 8 }));
    assert!(is_refused(&r, Refusal::TargetNotInRoom));
    let r = kick_member(&mut rm, pkt(RoomCode::Kick, 1), Some(CKickMember { target_id: 1 }));
    assert!(is_refused(&r, Refusal::KickFailed));
    let r = kick_member(&mut rm, pkt(RoomCode::Kick, 1), None);
    assert!(is_refused(&r, Refusal::DecodeFailed));
    let r = kick_member(&mut rm, pkt(RoomCode::Kick, 1), Some(CKickMember { target_id: 3 }));
    assert!(is_done_silent(&r));
    assert!(!rm.custom_room.rooms.get(&0).unwrap().members.contains_key(&3));
    assert!(!rm.player_room.contains_key(&3));
    rm.custom_room.rooms.get_mut(&0).unwrap().state = RoomState::BattleStarted;
    let r = kick_member(&mut rm, pkt(RoomCode::Kick, 1), Some(CKickMember { target_id: 2 }));
    assert_eq!(r.err(), Some(RoomError::RoomStarted { room_id: 0 }));
}

#[test]
fn kick_refused_in_match_room() {
    let mut rm = empty_mgr();
    for uid in 1..=2u32 {
        search_room(&mut rm, pkt(RoomCode::SearchRoom, uid), Some(GRSearchRoom { battle_type: 3, pbp: member(uid) }))
            .unwrap();
    }
    let r = kick_member(&mut rm, pkt(RoomCode::Kick, 1), Some(CKickMember { target_id: 2 }));
    assert!(is_refused(&r, Refusal::NotCustomRoom));
}

#[test]
fn room_setting_changes_one_setting() {
    let mut rm = custom_room_of_three();
    let r = room_setting(&mut rm, pkt(RoomCode::RoomSetting, 2), Some(CRoomSetting { set_type: 1, value: 1 }));
    assert!(is_refused(&r, Refusal::NotOwner));
    let r = room_setting(&mut rm, pkt(RoomCode::RoomSetting, 1), None);
    assert!(is_refused(&r, Refusal::DecodeFailed));
    let r = room_setting(&mut rm, pkt(RoomCode::RoomSetting, 1), Some(CRoomSetting { set_type: 1, value: 1 })).unwrap();
    match r {
        Reply::Done(ns) => {
            assert_eq!(ns.len(), 2);
            assert!(matches!(ns[0], Notice::RoomSetting { user_id: 1, is_succ: true }));
            assert!(matches!(ns[1], Notice::RoomNotice { room_id: 0 }));
        },
        _ => panic!("expected done"),
    }
    room_setting(&mut rm, pkt(RoomCode::RoomSetting, 1), Some(CRoomSetting { set_type: 2, value: 12 })).unwrap();
    room_setting(&mut rm, pkt(RoomCode::RoomSetting, 1), Some(CRoomSetting { set_type: 3, value: 30 })).unwrap();
    room_setting(&mut rm, pkt(RoomCode::RoomSetting, 1), Some(CRoomSetting { set_type: 7, value: 99 })).unwrap();
    let s = rm.custom_room.rooms.get(&0).unwrap().setting;
    assert!(s.is_open_ai);
    assert_eq!(s.season_id, 12);
    assert_eq!(s.turn_limit_time, 30);
    room_setting(&mut rm, pkt(RoomCode::RoomSetting, 1), Some(CRoomSetting { set_type: 1, value: 2 })).unwrap();
    assert!(!rm.custom_room.rooms.get(&0).unwrap().setting.is_open_ai);
    rm.custom_room.rooms.get_mut(&0).unwrap().members.get_mut(&1).unwrap().state = 1;
    let r = room_setting(&mut rm, pkt(RoomCode::RoomSetting, 1), Some(CRoomSetting { set_type: 2, value: 1 }));
    assert!(is_refused(&r, Refusal::MemberReady));
    rm.custom_room.rooms.get_mut(&0).unwrap().state = RoomState::ChoiceIndex;
    let r = room_setting(&mut rm, pkt(RoomCode::RoomSetting, 1), Some(CRoomSetting { set_type: 2, value: 1 }));
    assert_eq!(r.err(), Some(RoomError::SettingLocked { room_id: 0 }));
}

#[test]
fn choose_character_tells_every_member() {
    let mut rm = custom_room_of_three();
    let r = choose_character(&mut rm, pkt(RoomCode::ChoiceCharacter, 2), Some(CChooseCharacter { cter_id: 1001 }))
        .unwrap();
    match r {
        Reply::Done(ns) => {
            assert_eq!(ns.len(), 4);
            assert!(matches!(ns[0], Notice::ChooseCharacter { user_id: 2, is_succ: true }));
            let mut to: Vec<u32> = Vec::new();
            for n in ns.iter().skip(1) {
                match n {
                    Notice::ChooseCharacterNotice { to: t, user_id: 2, cter_id: 1001, cter_grade: 2 } => to.push(*t),
                    _ => panic!("unexpected notice"),
                }
            }
            to.sort();
            assert_eq!(to, vec![1, 2, 3]);
        },
        _ => panic!("expected done"),
    }
    let chosen = &rm.custom_room.rooms.get(&0).unwrap().members.get(&2).unwrap().chose_cter;
    assert_eq!(chosen.cter_id, 1001);
    assert_eq!(chosen.skills, vec![1, 2, 3]);
    let r = choose_character(&mut rm, pkt(RoomCode::ChoiceCharacter, 3), Some(CChooseCharacter { cter_id: 1001 }));
    assert!(is_refused(&r, Refusal::CharacterTaken));
    let r = choose_character(&mut rm, pkt(RoomCode::ChoiceCharacter, 3), Some(CChooseCharacter { cter_id: 77 }));
    assert!(is_refused(&r, Refusal::CharacterNotOwned));
    let r = choose_character(&mut rm, pkt(RoomCode::ChoiceCharacter, 3), None);
    assert!(is_refused(&r, Refusal::DecodeFailed));
    choose_character(&mut rm, pkt(RoomCode::ChoiceCharacter, 2), Some(CChooseCharacter { cter_id: 0 })).unwrap();
    let chosen = &rm.custom_room.rooms.get(&0).unwrap().members.get(&2).unwrap().chose_cter;
    assert_eq!(chosen.cter_id, 0);
    assert!(chosen.skills.is_empty());
    rm.custom_room.rooms.get_mut(&0).unwrap().members.get_mut(&3).unwrap().state = 1;
    let r = choose_character(&mut rm, pkt(RoomCode::ChoiceCharacter, 3), Some(CChooseCharacter { cter_id: 1002 }));
    assert!(is_refused(&r, Refusal::MemberReady));
    rm.custom_room.rooms.get_mut(&0).unwrap().state = RoomState::BattleStarted;
    let r = choose_character(&mut rm, pkt(RoomCode::ChoiceCharacter, 2), Some(CChooseCharacter { cter_id: 1002 }));
    assert!(is_refused(&r, Refusal::RoomStarted));
}

#[test]
fn choice_skills_checks_count_ownership_and_groups() {
    let mut rm = custom_room_of_three();
    let t = templates();
    choose_character(&mut rm, pkt(RoomCode::ChoiceCharacter, 2), Some(CChooseCharacter { cter_id: 1001 })).unwrap();
    let r = choice_skills(&mut rm, &t, pkt(RoomCode::ChoiceSkills, 3), Some(CChooseSkill { skills: vec![1] }));
    assert!(is_refused(&r, Refusal::CharacterNotChosen));
    let r = choice_skills(&mut rm, &t, pkt(RoomCode::ChoiceSkills, 2), Some(CChooseSkill { skills: vec![1, 2, 3] }));
    assert!(is_refused(&r, Refusal::SkillCountError));
    let r = choice_skills(&mut rm, &t, pkt(RoomCode::ChoiceSkills, 2), Some(CChooseSkill { skills: vec![1, 9] }));
    assert!(is_refused(&r, Refusal::SkillNotOwned));
    let r = choice_skills(&mut rm, &t, pkt(RoomCode::ChoiceSkills, 2), Some(CChooseSkill { skills: vec![1, 2] }));
    assert!(is_refused(&r, Refusal::SkillGroupError));
    let r = choice_skills(&mut rm, &t, pkt(RoomCode::ChoiceSkills, 2), Some(CChooseSkill { skills: vec![3, 3] }));
    assert!(is_refused(&r, Refusal::SkillGroupError));
    let r = choice_skills(&mut rm, &t, pkt(RoomCode::ChoiceSkills, 2), None);
    assert!(is_refused(&r, Refusal::DecodeFailed));
    let r = choice_skills(&mut rm, &t, pkt(RoomCode::ChoiceSkills, 2), Some(CChooseSkill { skills: vec![2, 3] })).unwrap();
    match r {
        Reply::Done(ns) => {
            assert_eq!(ns.len(), 1);
            match &ns[0] {
                Notice::ChooseSkill { user_id, is_succ, skills } => {
                    assert_eq!(*user_id, 2);
                    assert!(*is_succ);
                    assert_eq!(*skills, vec![2, 3]);
                },
                _ => panic!("unexpected notice"),
            }
        },
        _ => panic!("expected done"),
    }
    assert_eq!(rm.custom_room.rooms.get(&0).unwrap().members.get(&2).unwrap().chose_cter.skills, vec![2, 3]);
}

#[test]
fn emoji_rules() {
    let mut rm = custom_room_of_three();
    let t = templates();
    let r = emoji(&mut rm, &t, pkt(RoomCode::Emoji, 2), Some(CEmoji { emoji_id: 1 }));
    assert!(is_refused(&r, Refusal::MemberNotReady));
    rm.custom_room.rooms.get_mut(&0).unwrap().members.get_mut(&2).unwrap().state = 1;
    let r = emoji(&mut rm, &t, pkt(RoomCode::Emoji, 2), None);
    assert!(is_refused(&r, Refusal::DecodeFailed));
    let r = emoji(&mut rm, &t, pkt(RoomCode::Emoji, 2), Some(CEmoji { emoji_id: 50 }));
    assert!(is_refused(&r, Refusal::EmojiNotFound));
    let r = emoji(&mut rm, &t, pkt(RoomCode::Emoji, 2), Some(CEmoji { emoji_id: 2 }));
    assert!(is_refused(&r, Refusal::EmojiLocked));
    let r = emoji(&mut rm, &t, pkt(RoomCode::Emoji, 2), Some(CEmoji { emoji_id: 3 }));
    assert!(is_refused(&r, Refusal::EmojiCharacterMismatch));
    let r = emoji(&mut rm, &t, pkt(RoomCode::Emoji, 2), Some(CEmoji { emoji_id: 1 })).unwrap();
    match r {
        Reply::Done(ns) => {
            assert_eq!(ns.len(), 1);
            assert!(matches!(ns[0], Notice::Emoji { room_id: 0, user_id: 2, emoji_id: 1 }));
        },
        _ => panic!("expected done"),
    }
    let r = emoji(&mut rm, &t, pkt(RoomCode::Emoji, 42), Some(CEmoji { emoji_id: 1 }));
    assert!(is_refused(&r, Refusal::NotInRoom));
}

#[test]
fn start_needs_everyone_ready() {
    let mut rm = custom_room_of_three();
    let r = start(&mut rm, pkt(RoomCode::Start, 1));
    assert!(is_refused(&r, Refusal::NotAllReady));
    for uid in 1..=3u32 {
        rm.custom_room.rooms.get_mut(&0).unwrap().members.get_mut(&uid).unwrap().state = 1;
    }
    let r = start(&mut rm, pkt(RoomCode::Start, 1)).unwrap();
    match r {
        Reply::Accepted(a, ns) => {
            assert_eq!(a, BattleAction::Start { room_id: 0 });
            assert_eq!(ns.len(), 1);
            assert!(matches!(ns[0], Notice::Start { user_id: 1, is_succ: true }));
        },
        _ => panic!("expected accepted"),
    }
    rm.custom_room.rooms.get_mut(&0).unwrap().state = RoomState::BattleStarted;
    assert_eq!(start(&mut rm, pkt(RoomCode::Start, 1)).err(), Some(RoomError::RoomStarted { room_id: 0 }));
    assert!(is_refused(&start(&mut rm, pkt(RoomCode::Start, 9)), Refusal::NotInRoom));
}

fn battle_cter(uid: u32, index: usize, chosen: bool) -> BattleCharacter {
    BattleCharacter {
        base_attr: BaseAttr { user_id: uid, hp: 10, max_energy: 0, energy: 0 },
        map_cell_index: index,
        index_chosen: chosen,
        transformed: false,
        battle_buffs: BattleBuffs { buffs: HashMap::new() },
        skills: HashMap::new(),
        flow_data: FlowData { turn_limit_skills: vec![] },
    }
}

/// Room 0 in the phase of picking turn orders, then cells.
fn room_in_choice() -> RoomMgr {
    let mut rm = custom_room_of_three();
    let room = rm.custom_room.rooms.get_mut(&0).unwrap();
    room.state = RoomState::ChoiceTurn;
    let bd = &mut room.battle_data;
    bd.choice_orders = vec![2, 1, 3];
    bd.next_choice_index = 0;
    bd.turn_orders = vec![3, 0, 0, 0];
    for i in 0..4usize {
        bd.tile_map.map_cells.push(MapCell { index: i, user_id: 0, buffs: HashMap::new() });
    }
    bd.tile_map.map_cells[1].user_id = 3;
    bd.battle_cter.insert(1, battle_cter(1, 0, false));
    bd.battle_cter.insert(2, battle_cter(2, 0, true));
    bd.battle_cter.insert(3, battle_cter(3, 1, true));
    rm
}

#[test]
fn choice_turn_and_skip_follow_choice_order() {
    let mut rm = room_in_choice();
    let r = choice_turn(&mut rm, pkt(RoomCode::ChoiceTurn, 1), Some(CChooseTurnOrder { order: 1 }));
    assert!(is_refused(&r, Refusal::NotYourTurn));
    let r = choice_turn(&mut rm, pkt(RoomCode::ChoiceTurn, 2), Some(CChooseTurnOrder { order: 4 }));
    assert!(is_refused(&r, Refusal::InvalidOrder));
    assert_eq!(choice_turn(&mut rm, pkt(RoomCode::ChoiceTurn, 2), None).err(), Some(RoomError::Decode));
    let r = choice_turn(&mut rm, pkt(RoomCode::ChoiceTurn, 2), Some(CChooseTurnOrder { order: 3 })).unwrap();
    match r {
        Reply::Accepted(a, ns) => {
            assert_eq!(a, BattleAction::ChoiceTurn { room_id: 0, user_id: 2, order: 3 });
            assert!(ns.is_empty());
        },
        _ => panic!("expected accepted"),
    }
    assert!(is_refused(&skip_choice_turn(&mut rm, pkt(RoomCode::SkipChoiceTurn, 3)), Refusal::NotYourTurn));
    match skip_choice_turn(&mut rm, pkt(RoomCode::SkipChoiceTurn, 2)).unwrap() {
        Reply::Accepted(a, _) => assert_eq!(a, BattleAction::SkipChoiceTurn { room_id: 0, user_id: 2 }),
        _ => panic!("expected accepted"),
    }
    rm.custom_room.rooms.get_mut(&0).unwrap().battle_data.next_choice_index = 2;
    let r = choice_turn(&mut rm, pkt(RoomCode::ChoiceTurn, 3), Some(CChooseTurnOrder { order: 2 }));
    assert!(is_refused(&r, Refusal::OrderAlreadyChosen));
    assert!(is_refused(&skip_choice_turn(&mut rm, pkt(RoomCode::SkipChoiceTurn, 42)), Refusal::NotInRoom));
}

#[test]
fn choice_index_needs_free_cell_and_turn() {
    let mut rm = room_in_choice();
    {
        let room = rm.custom_room.rooms.get_mut(&0).unwrap();
        room.state = RoomState::ChoiceIndex;
        room.battle_data.turn_orders = vec![1, 2, 3];
        room.battle_data.next_turn_index = 0;
    }
    assert_eq!(choice_index(&mut rm, pkt(RoomCode::ChoiceIndex, 1), None).err(), Some(RoomError::Decode));
    let r = choice_index(&mut rm, pkt(RoomCode::ChoiceIndex, 1), Some(CChooseIndex { index: 9 }));
    assert!(is_refused(&r, Refusal::InvalidIndex));
    let r = choice_index(&mut rm, pkt(RoomCode::ChoiceIndex, 1), Some(CChooseIndex { index: 1 }));
    assert!(is_refused(&r, Refusal::InvalidIndex));
    let r = choice_index(&mut rm, pkt(RoomCode::ChoiceIndex, 2), Some(CChooseIndex { index: 2 }));
    assert!(is_refused(&r, Refusal::NotYourTurn));
    let r = choice_index(&mut rm, pkt(RoomCode::ChoiceIndex, 1), Some(CChooseIndex { index: 2 })).unwrap();
    match r {
        Reply::Accepted(a, _) => assert_eq!(a, BattleAction::ChoiceIndex { room_id: 0, user_id: 1, index: 2 }),
        _ => panic!("expected accepted"),
    }
    rm.custom_room.rooms.get_mut(&0).unwrap().battle_data.next_turn_index = 1;
    let r = choice_index(&mut rm, pkt(RoomCode::ChoiceIndex, 2), Some(CChooseIndex { index: 2 }));
    assert!(is_refused(&r, Refusal::IndexAlreadyChosen));
}

#[test]
fn join_then_leave_gives_the_room_back() {
    let mut rm = custom_room_of_three();
    let before: Vec<u32> = {
        let mut ids: Vec<u32> = rm.custom_room.rooms.get(&0).unwrap().members.keys().copied().collect();
        ids.sort();
        ids
    };
    let r = join_room(&mut rm, pkt(RoomCode::JoinRoom, 4), Some(GRJoinRoom { room_id: 0, pbp: member(4) }));
    assert!(is_done_silent(&r));
    assert_eq!(rm.player_room.get(&4), Some(&((1u64 << 32) | 0)));
    let r = leave_room(&mut rm, pkt(RoomCode::LeaveRoom, 4));
    assert!(is_done_silent(&r));
    assert!(!rm.player_room.contains_key(&4));
    let mut after: Vec<u32> = rm.custom_room.rooms.get(&0).unwrap().members.keys().copied().collect();
    after.sort();
    assert_eq!(before, after);
    assert_eq!(rm.custom_room.rooms.get(&0).unwrap().owner_id, 1);
}

#[test]
fn prepare_then_cancel_gives_the_member_back() {
    let mut rm = custom_room_of_three();
    let t = templates();
    choose_character(&mut rm, pkt(RoomCode::ChoiceCharacter, 2), Some(CChooseCharacter { cter_id: 1001 })).unwrap();
    let r = choice_skills(&mut rm, &t, pkt(RoomCode::ChoiceSkills, 2), Some(CChooseSkill { skills: vec![1, 3] }));
    assert!(matches!(r, Ok(Reply::Done(_))));
    let m = rm.custom_room.rooms.get(&0).unwrap().members.get(&2).unwrap();
    let before = (m.state, m.team_id, m.chose_cter.cter_id, m.chose_cter.skills.clone());
    prepare_cancel(&mut rm, &t, pkt(RoomCode::PrepareCancel, 2), Some(CPrepareCancel { prepare: true })).unwrap();
    prepare_cancel(&mut rm, &t, pkt(RoomCode::PrepareCancel, 2), Some(CPrepareCancel { prepare: false })).unwrap();
    let after = rm.custom_room.rooms.get(&0).unwrap().members.get(&2).unwrap();
    assert_eq!((after.state, after.team_id, after.chose_cter.cter_id, after.chose_cter.skills.clone()), before);
}

#[test]
fn kicked_player_is_filed_nowhere() {
    let mut rm = custom_room_of_three();
    let r = kick_member(&mut rm, pkt(RoomCode::Kick, 1), Some(CKickMember { target_id: 2 }));
    assert!(is_done_silent(&r));
    assert!(!rm.player_room.contains_key(&2));
    assert!(!rm.custom_room.rooms.get(&0).unwrap().members.contains_key(&2));
    let r = change_team(&mut rm, pkt(RoomCode::ChangeTeam, 2), Some(CChangeTeam { target_team_id: 2 }));
    assert!(is_refused(&r, Refusal::NotInRoom));
}

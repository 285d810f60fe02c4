//! Requests that reach the room handlers, their outcomes, and the messages
//! that the handlers address to clients.

use crate::room::Member;
use vstd::prelude::*;

verus! {

/// The command a packet carries.
#[derive(Clone, Copy, Debug, PartialEq, Eq, Structural)]
pub enum RoomCode {
    ReloadTemps,
    UpdateSeason,
    CreateRoom,
    LeaveRoom,
    OffLine,
    SearchRoom,
    PrepareCancel,
    Start,
    ChangeTeam,
    Kick,
    RoomSetting,
    JoinRoom,
    ChoiceCharacter,
    ChoiceSkills,
    Emoji,
    ChoiceIndex,
    ChoiceTurn,
    SkipChoiceTurn,
}

/// The header of a request: who sent it and which command it is.
/// The body travels beside it, already decoded, as `Option<..>`:
/// `None` stands for a body that did not decode.
#[derive(Clone, Copy, Debug, PartialEq, Eq, Structural)]
pub struct Packet {
    pub cmd: RoomCode,
    pub user_id: u32,
}

impl Packet {
    pub fn get_user_id(&self) -> (r: u32)
        ensures
            r == self.user_id,
    {
        self.user_id
    }

    pub fn get_cmd(&self) -> (r: RoomCode)
        ensures
            r == self.cmd,
    {
        self.cmd
    }
}

/// Body of a create-room request from the game server.
pub struct GRCreateRoom {
    pub room_type: u32,
    pub pbp: Member,
}

/// Body of a join-room request from the game server.
pub struct GRJoinRoom {
    pub room_id: u32,
    pub pbp: Member,
}

/// Body of a match request from the game server.
pub struct GRSearchRoom {
    pub battle_type: u32,
    pub pbp: Member,
}

/// Body of a ready / not-ready request.
#[derive(Clone, Copy, Debug, PartialEq, Eq, Structural)]
pub struct CPrepareCancel {
    pub prepare: bool,
}

/// Body of a change-team request.
#[derive(Clone, Copy, Debug, PartialEq, Eq, Structural)]
pub struct CChangeTeam {
    pub target_team_id: u32,
}

/// Body of a kick request.
#[derive(Clone, Copy, Debug, PartialEq, Eq, Structural)]
pub struct CKickMember {
    pub target_id: u32,
}

/// Body of a room-setting request.
#[derive(Clone, Copy, Debug, PartialEq, Eq, Structural)]
pub struct CRoomSetting {
    pub set_type: u32,
    pub value: u32,
}

/// Body of a choose-character request.
#[derive(Clone, Copy, Debug, PartialEq, Eq, Structural)]
pub struct CChooseCharacter {
    pub cter_id: u32,
}

/// Body of a choose-skills request.
pub struct CChooseSkill {
    pub skills: Vec<u32>,
}

/// Body of an emoji request.
#[derive(Clone, Copy, Debug, PartialEq, Eq, Structural)]
pub struct CEmoji {
    pub emoji_id: u32,
}

/// Body of a choose-start-cell request.
#[derive(Clone, Copy, Debug, PartialEq, Eq, Structural)]
pub struct CChooseIndex {
    pub index: u32,
}

/// Body of a choose-turn-order request.
#[derive(Clone, Copy, Debug, PartialEq, Eq, Structural)]
pub struct CChooseTurnOrder {
    pub order: u32,
}

/// Why a handler left a request without effect (the request is answered
/// with `Ok`, as a warning).
#[derive(Clone, Copy, Debug, PartialEq, Eq, Structural)]
pub enum Refusal {
    DecodeFailed,
    InvalidRoomType,
    AlreadyInRoom,
    NotOpenYet,
    NotInRoom,
    RoomStarted,
    MemberNotFound,
    MemberReady,
    CharacterNotChosen,
    SkillsNotChosen,
    InvalidTeam,
    NotCustomRoom,
    NotOwner,
    TargetNotInRoom,
    KickFailed,
    InvalidBattleType,
    MatchFailed,
    NotAllReady,
    RoomNotFound,
    RoomNotJoinable,
    RoomFull,
    JoinFailed,
    LeaveFailed,
    CharacterTaken,
    CharacterNotOwned,
    SkillCountError,
    SkillNotOwned,
    SkillGroupError,
    MemberNotReady,
    EmojiNotFound,
    EmojiLocked,
    EmojiCharacterMismatch,
    InvalidIndex,
    NotYourTurn,
    IndexAlreadyChosen,
    InvalidOrder,
    OrderAlreadyChosen,
    InvalidSeasonTime,
}

/// Errors that a handler returns to its caller.
#[derive(Clone, Copy, Debug, PartialEq, Eq, Structural)]
pub enum RoomError {
    /// The request's body did not decode.
    Decode,
    /// The room has already left the waiting state.
    RoomStarted { room_id: u32 },
    /// The room no longer accepts setting changes.
    SettingLocked { room_id: u32 },
    /// No room id is left to allocate.
    RoomIdsExhausted,
}

/// A message to one client.
#[derive(Debug)]
pub enum Notice {
    LeaveRoom { user_id: u32, is_succ: bool },
    Start { user_id: u32, is_succ: bool },
    RoomSetting { user_id: u32, is_succ: bool },
    ChooseCharacter { user_id: u32, is_succ: bool },
    /// Tells member `to` which character `user_id` chose.
    ChooseCharacterNotice { to: u32, user_id: u32, cter_id: u32, cter_grade: u32 },
    ChooseSkill { user_id: u32, is_succ: bool, skills: Vec<u32> },
    /// The state of room `room_id`, for all of its members.
    RoomNotice { room_id: u32 },
    /// `user_id` sent `emoji_id` to the members of `room_id`.
    Emoji { room_id: u32, user_id: u32, emoji_id: u32 },
}

/// Operations that the battle engine performs once a request was accepted.
#[derive(Clone, Copy, Debug, PartialEq, Eq, Structural)]
pub enum BattleAction {
    Start { room_id: u32 },
    ChoiceIndex { room_id: u32, user_id: u32, index: u32 },
    ChoiceTurn { room_id: u32, user_id: u32, order: usize },
    SkipChoiceTurn { room_id: u32, user_id: u32 },
}

/// The outcome of a request that did not end in an error.
#[derive(Debug)]
pub enum Reply {
    /// The request was refused; nothing changed.
    Refused(Refusal),
    /// The request was carried out; these messages go to clients.
    Done(Vec<Notice>),
    /// The request was accepted; the battle engine carries out the action,
    /// and these messages go to clients.
    Accepted(BattleAction, Vec<Notice>),
}

/// `res` refuses the request for reason `r`.
pub open spec fn refused(res: Result<Reply, RoomError>, r: Refusal) -> bool {
    res matches Ok(Reply::Refused(x)) && x == r
}

/// `res` reports the request done, with no message to send.
pub open spec fn done_silent(res: Result<Reply, RoomError>) -> bool {
    res matches Ok(Reply::Done(ns)) && ns@.len() == 0
}

} // verus!

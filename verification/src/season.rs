//! The current season: its id and when it was last and will next be
//! renewed.

use crate::protocol::{done_silent, refused, Refusal, Reply, RoomError};
use vstd::prelude::*;

verus! {

/// The season the room server plays in.
#[derive(Clone, Copy, Debug, PartialEq, Eq, Structural)]
pub struct Season {
    pub season_id: u32,
    /// Seconds since the epoch, read as UTC.
    pub last_update_time: u64,
    /// Seconds since the epoch, read as UTC.
    pub next_update_time: u64,
}

/// Body of a season-update notice from the game server.
pub struct UpdateSeasonNotice {
    pub season_id: u32,
    /// A date and time written `year-month-day hour:minute:second`.
    pub last_update_time: String,
    /// A date and time written `year-month-day hour:minute:second`.
    pub next_update_time: String,
}

/// What `chrono::NaiveDateTime::parse_from_str(s, fmt)` followed by
/// `timestamp()` gives: `None` where parsing fails, else the seconds since
/// the epoch of the date and time read as UTC.
pub uninterp spec fn naive_timestamp(s: Seq<char>, fmt: Seq<char>) -> Option<i64>;

/// Reads `s` as a date and time in format `fmt` with
/// `chrono::NaiveDateTime::parse_from_str` and gives its `timestamp()`.
/// The contract claims only that the result is a function of `s` and `fmt`;
/// which strings parse, and to what, is chrono's.
#[verifier::external_body]
#[allow(deprecated)]
fn parse_timestamp(s: &str, fmt: &str) -> (r: Option<i64>)
    ensures
        r == naive_timestamp(s@, fmt@),
{
    match chrono::NaiveDateTime::parse_from_str(s, fmt) {
        Ok(t) => Some(t.timestamp()),
        Err(_) => None,
    }
}

/// Both times of a notice parse.
pub open spec fn season_times_parse(n: &UpdateSeasonNotice) -> bool {
    &&& naive_timestamp(n.last_update_time@, "%Y-%m-%d %H:%M:%S"@) is Some
    &&& naive_timestamp(n.next_update_time@, "%Y-%m-%d %H:%M:%S"@) is Some
}

/// The season a notice announces, its times read with chrono.
pub open spec fn season_from(n: UpdateSeasonNotice) -> Season {
    Season {
        season_id: n.season_id,
        last_update_time: naive_timestamp(n.last_update_time@, "%Y-%m-%d %H:%M:%S"@).unwrap() as u64,
        next_update_time: naive_timestamp(n.next_update_time@, "%Y-%m-%d %H:%M:%S"@).unwrap() as u64,
    }
}

/// The game server announces a new season: its id and the times at which
/// it was last and will next be renewed.
pub fn update_season(season: &mut Season, msg: Option<UpdateSeasonNotice>) -> (res: Result<Reply, RoomError>)
    requires
        msg matches Some(n) ==> season_times_parse(&n),
    ensures
        msg is None ==> refused(res, Refusal::DecodeFailed) && *final(season) == *old(season),
        msg is Some ==> done_silent(res) && *final(season) == season_from(msg.unwrap()),
{
    let usn = match msg {
        Some(n) => n,
        None => return Ok(Reply::Refused(Refusal::DecodeFailed)),
    };
    season.season_id = usn.season_id;
    let last_update_time = parse_timestamp(usn.last_update_time.as_str(), "%Y-%m-%d %H:%M:%S").unwrap() as u64;
    let next_update_time = parse_timestamp(usn.next_update_time.as_str(), "%Y-%m-%d %H:%M:%S").unwrap() as u64;
    season.last_update_time = last_update_time;
    season.next_update_time = next_update_time;
    Ok(Reply::Done(Vec::new()))
}

/// Applies a season notice whose times both parse; where one does not, the
/// season stays as it was and the notice is refused.
pub fn try_update_season(season: &mut Season, msg: Option<UpdateSeasonNotice>) -> (res: Result<Reply, RoomError>)
    ensures
        msg is None ==> refused(res, Refusal::DecodeFailed) && *final(season) == *old(season),
        msg is Some && !season_times_parse(&msg.unwrap()) ==> refused(res, Refusal::InvalidSeasonTime)
            && *final(season) == *old(season),
        msg is Some && season_times_parse(&msg.unwrap()) ==> done_silent(res) && *final(season) == season_from(msg.unwrap()),
{
    match msg {
        None => Ok(Reply::Refused(Refusal::DecodeFailed)),
        Some(n) => {
            let last = parse_timestamp(n.last_update_time.as_str(), "%Y-%m-%d %H:%M:%S");
            let next = parse_timestamp(n.next_update_time.as_str(), "%Y-%m-%d %H:%M:%S");
            if last.is_none() || next.is_none() {
                return Ok(Reply::Refused(Refusal::InvalidSeasonTime));
            }
            update_season(season, Some(n))
        },
    }
}

} // verus!

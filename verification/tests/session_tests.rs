use roomserver::gate_user::{GateUser, TcpSender, WsSender};
use roomserver::protocol::{Refusal, Reply};
use roomserver::season::{try_update_season, update_season, Season, UpdateSeasonNotice};
use std::sync::Arc;

fn notice(last: &str, next: &str) -> UpdateSeasonNotice {
    UpdateSeasonNotice { season_id: 3, last_update_time: last.to_string(), next_update_time: next.to_string() }
}

#[test]
fn update_season_reads_times() {
    let mut s = Season { season_id: 0, last_update_time: 0, next_update_time: 0 };
    let r = update_season(&mut s, Some(notice("2021-01-01 00:00:00", "2021-02-01 12:30:15")));
    assert!(matches!(r, Ok(Reply::Done(ref ns)) if ns.is_empty()));
    assert_eq!(s, Season { season_id: 3, last_update_time: 1609459200, next_update_time: 1612182615 });
}

#[test]
fn update_season_without_body_is_refused() {
    let mut s = Season { season_id: 1, last_update_time: 5, next_update_time: 6 };
    let r = update_season(&mut s, None);
    assert!(matches!(r, Ok(Reply::Refused(Refusal::DecodeFailed))));
    assert_eq!(s, Season { season_id: 1, last_update_time: 5, next_update_time: 6 });
}

#[test]
fn try_update_season_refuses_bad_times() {
    let mut s = Season { season_id: 1, last_update_time: 5, next_update_time: 6 };
    let r = try_update_season(&mut s, Some(notice("2021-13-01 00:00:00", "2021-02-01 12:30:15")));
    assert!(matches!(r, Ok(Reply::Refused(Refusal::InvalidSeasonTime))));
    assert_eq!(s, Season { season_id: 1, last_update_time: 5, next_update_time: 6 });
    let r = try_update_season(&mut s, Some(notice("1970-01-01 00:00:10", "1970-01-02 00:00:00")));
    assert!(matches!(r, Ok(Reply::Done(_))));
    assert_eq!(s, Season { season_id: 3, last_update_time: 10, next_update_time: 86400 });
    let r = try_update_season(&mut s, None);
    assert!(matches!(r, Ok(Reply::Refused(Refusal::DecodeFailed))));
}

#[test]
fn token_prefers_tcp() {
    let both = GateUser::new(9, Some(Arc::new(WsSender { token: 4 })), Some(TcpSender { token: 7 }));
    assert_eq!(both.get_token(), 7);
    assert_eq!(both.get_user_id(), 9);
    let ws = GateUser::new(9, Some(Arc::new(WsSender { token: 4 })), None);
    assert_eq!(ws.get_token(), 4);
    assert_eq!(ws.get_ws_ref().token, 4);
    let none = GateUser::new(9, None, None);
    assert_eq!(none.get_token(), 0);
    assert!(!none.has_ws());
    assert!(!none.has_tcp());
}

#[test]
fn session_senders_can_be_replaced() {
    let mut u = GateUser::new(1, Some(Arc::new(WsSender { token: 4 })), Some(TcpSender { token: 7 }));
    *u.get_tcp_mut_ref() = TcpSender { token: 8 };
    assert_eq!(u.get_token(), 8);
    *u.get_ws_mut_ref() = Arc::new(WsSender { token: 5 });
    assert_eq!(u.get_ws_ref().token, 5);
}

//! The connection server's record of a player's session: the player and the
//! websocket or tcp connection it came in on.

use std::sync::Arc;
use vstd::prelude::*;

verus! {

/// A websocket session, known by its connection token.
#[derive(Clone, Copy, Debug, PartialEq, Eq, Structural)]
pub struct WsSender {
    pub token: usize,
}

/// A tcp session, known by its connection token.
#[derive(Clone, Copy, Debug, PartialEq, Eq, Structural)]
pub struct TcpSender {
    pub token: usize,
}

/// A player's session on the connection server.
pub struct GateUser {
    user_id: u32,
    ws: Option<Arc<WsSender>>,
    tcp: Option<TcpSender>,
}

pub struct GateUserView {
    pub user_id: u32,
    pub ws: Option<WsSender>,
    pub tcp: Option<TcpSender>,
}

impl View for GateUser {
    type V = GateUserView;

    closed spec fn view(&self) -> GateUserView {
        GateUserView {
            user_id: self.user_id,
            ws: match self.ws {
                Some(w) => Some(*w),
                None => None,
            },
            tcp: self.tcp,
        }
    }
}

impl GateUserView {
    /// The token of the session's connection: the tcp one where there is
    /// one, else the websocket one, else 0.
    pub open spec fn token(self) -> usize {
        match self.tcp {
            Some(t) => t.token,
            None => match self.ws {
                Some(w) => w.token,
                None => 0,
            },
        }
    }
}

impl GateUser {
    pub fn new(user_id: u32, ws: Option<Arc<WsSender>>, tcp: Option<TcpSender>) -> (u: GateUser)
        ensures
            u@ == (GateUserView {
                user_id,
                ws: match ws {
                    Some(w) => Some(*w),
                    None => None,
                },
                tcp,
            }),
    {
        GateUser { user_id: user_id, ws: ws, tcp: tcp }
    }

    pub fn get_user_id(&self) -> (r: u32)
        ensures
            r == self@.user_id,
    {
        self.user_id
    }

    /// The token of the session's connection.
    pub fn get_token(&self) -> (r: usize)
        ensures
            r == self@.token(),
    {
        let mut token: usize = 0;
        if self.tcp.is_some() {
            token = self.tcp.as_ref().unwrap().token;
        } else if self.ws.is_some() {
            token = self.ws.as_ref().unwrap().token;
        }
        token
    }

    /// Whether the session came in on a websocket.
    pub fn has_ws(&self) -> (r: bool)
        ensures
            r == self@.ws is Some,
    {
        self.ws.is_some()
    }

    /// Whether the session came in on tcp.
    pub fn has_tcp(&self) -> (r: bool)
        ensures
            r == self@.tcp is Some,
    {
        self.tcp.is_some()
    }

    pub fn get_ws_ref(&self) -> (r: &Arc<WsSender>)
        requires
            self@.ws is Some,
        ensures
            self@.ws == Some(**r),
    {
        self.ws.as_ref().unwrap()
    }

    pub fn get_ws_mut_ref(&mut self) -> (r: &mut Arc<WsSender>)
        requires
            old(self)@.ws is Some,
        ensures
            old(self)@.ws == Some(**r),
            final(self)@ == (GateUserView { ws: Some(**final(r)), ..old(self)@ }),
    {
        self.ws.as_mut().unwrap()
    }

    pub fn get_tcp_mut_ref(&mut self) -> (r: &mut TcpSender)
        requires
            old(self)@.tcp is Some,
        ensures
            old(self)@.tcp == Some(*r),
            final(self)@ == (GateUserView { tcp: Some(*final(r)), ..old(self)@ }),
    {
        self.tcp.as_mut().unwrap()
    }
}

} // verus!

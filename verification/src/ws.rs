//! The states of the connection to the game server and how they change.
//!
//! The socket and the clock are the caller's: a state holds the socket `S`
//! and the time `T` at which connecting began, and each update is told
//! whether the socket is open and whether connecting has taken too long.

use vstd::prelude::*;

verus! {

/// Where the connection to the game server stands.
pub enum WsState<S, T> {
    /// No connection was tried yet.
    Idle,
    /// A socket was opened at the given time and waits for the server.
    Connecting((S, T)),
    /// The socket is open.
    Connected(S),
    /// Connecting failed or the connection ended, for the given reason.
    Error(String),
}

impl<S, T> Default for WsState<S, T> {
    fn default() -> (r: Self)
        ensures
            r is Idle,
    {
        WsState::Idle
    }
}

/// What the caller is to do after an update.
#[derive(Debug, PartialEq, Eq)]
pub enum WsStep {
    /// Nothing.
    Wait,
    /// Read the messages that the open socket has received.
    ReadMessages,
    /// Tell the user that the connection failed, in these words.
    Report(String),
}

impl<S, T> WsState<S, T> {
    /// A new connection may be tried: none was tried yet, or the last one
    /// failed.
    pub open spec fn may_connect(&self) -> bool {
        self is Idle || self is Error
    }

    /// Whether a new connection may be tried.
    pub fn can_connect(&self) -> (r: bool)
        ensures
            r == self.may_connect(),
    {
        match self {
            WsState::Idle | WsState::Error(_) => true,
            _ => false,
        }
    }

    /// Records the outcome of opening a socket: the socket and the time it
    /// was opened, or why it could not be. Where no new connection may be
    /// tried, the state stays as it was.
    pub fn begin_connecting(&mut self, attempt: Result<(S, T), String>)
        ensures
            old(self).may_connect() ==> match attempt {
                Ok(opened) => *final(self) == WsState::<S, T>::Connecting(opened),
                Err(reason) => *final(self) == WsState::<S, T>::Error(reason),
            },
            !old(self).may_connect() ==> *final(self) == *old(self),
    {
        if self.can_connect() {
            *self = match attempt {
                Ok(opened) => WsState::Connecting(opened),
                Err(reason) => WsState::Error(reason),
            };
        }
    }

    /// Ends the connection, for the given reason.
    pub fn disconnect(&mut self, reason: &str)
        ensures
            *final(self) matches WsState::Error(r) && r@ == reason@,
    {
        *self = WsState::Error(reason.to_owned());
    }

    /// Whether the socket is open.
    pub fn is_connected(&self) -> (r: bool)
        ensures
            r == self is Connected,
    {
        match self {
            WsState::Connected(_) => true,
            _ => false,
        }
    }

    /// Moves the state on: a connecting socket that has opened becomes the
    /// connection, one that has not opened in time fails; a connection
    /// whose socket has closed is lost. `socket_open` says whether the
    /// socket of this state is open, `timed_out` whether connecting began
    /// too long ago.
    pub fn update(&mut self, socket_open: bool, timed_out: bool) -> (r: WsStep)
        ensures
            match *old(self) {
                WsState::Connecting((socket, _)) => if socket_open {
                    &&& *final(self) == WsState::<S, T>::Connected(socket)
                    &&& r == WsStep::ReadMessages
                } else if timed_out {
                    &&& *final(self) matches WsState::Error(m) && m@ == "Connection timed out."@
                    &&& r matches WsStep::Report(m) && m@ == "Connection timed out."@
                } else {
                    &&& *final(self) == *old(self)
                    &&& r == WsStep::Wait
                },
                WsState::Connected(_) => if socket_open {
                    &&& *final(self) == *old(self)
                    &&& r == WsStep::ReadMessages
                } else {
                    &&& *final(self) matches WsState::Error(m) && m@ == "Lost connection to server."@
                    &&& r matches WsStep::Report(m) && m@ == "Disconnected from server."@
                },
                _ => {
                    &&& *final(self) == *old(self)
                    &&& r == WsStep::Wait
                },
            },
            r is Report ==> final(self).may_connect(),
            *final(self) is Connected ==> r == WsStep::ReadMessages,
    {
        let mut current = WsState::Idle;
        std::mem::swap(self, &mut current);
        match current {
            WsState::Connecting((socket, since)) => {
                if socket_open {
                    *self = WsState::Connected(socket);
                    WsStep::ReadMessages
                } else if timed_out {
                    *self = WsState::Error("Connection timed out.".to_owned());
                    WsStep::Report("Connection timed out.".to_owned())
                } else {
                    *self = WsState::Connecting((socket, since));
                    WsStep::Wait
                }
            },
            WsState::Connected(socket) => {
                if socket_open {
                    *self = WsState::Connected(socket);
                    WsStep::ReadMessages
                } else {
                    *self = WsState::Error("Lost connection to server.".to_owned());
                    WsStep::Report("Disconnected from server.".to_owned())
                }
            },
            other => {
                *self = other;
                WsStep::Wait
            },
        }
    }
}

} // verus!

//! The screen that asks the agent for the lobby before it shows a room.

use crate::lobby::Lobby;
use vstd::prelude::*;

verus! {

/// Which screen follows.
#[derive(Clone, Copy, Debug, PartialEq, Eq, Structural)]
pub enum Page {
    Lobby,
    Game,
}

pub enum Msg {
    Ignore,
    ReceiveLobby(Option<Lobby>),
}

pub struct RoomMediator {
    pub lobby: Option<Lobby>,
    pub page: Page,
}

impl RoomMediator {
    /// Waits for the lobby.
    pub fn create(page: Page) -> (r: RoomMediator)
        ensures
            r.lobby is None,
            r.page == page,
    {
        RoomMediator { lobby: None, page }
    }

    /// Takes one message; gives back whether to redraw and whether to go
    /// back to the start screen (`update`).
    pub fn update(&mut self, msg: Msg) -> (r: (bool, bool))
        ensures
            final(self).page == old(self).page,
            match msg {
                Msg::Ignore => r == (false, false) && final(self).lobby == old(self).lobby,
                Msg::ReceiveLobby(Some(l)) => r == (true, false) && final(self).lobby == Some(l),
                Msg::ReceiveLobby(None) => r == (true, true) && final(self).lobby == old(self).lobby,
            },
    {
        match msg {
            Msg::Ignore => (false, false),
            Msg::ReceiveLobby(lobby) => match lobby {
                Some(l) => {
                    self.lobby = Some(l);
                    (true, false)
                },
                None => (true, true),
            },
        }
    }
}

} // verus!

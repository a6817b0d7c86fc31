//! The waiting room: who is there, who leads, and the start of the game.

use crate::structures::{self, insert_player, remove_player, same_text, Lobby, Player, PlayerMessage, State};
use vstd::prelude::*;

verus! {

pub enum Msg {
    Ignore,
    Refresh(Lobby),
    StartGame,
    GameStarted(State),
    PlayerJoined(Player),
    PlayerDisconnected(Player),
    LeaderChange(State),
}

/// What the room asks of the application after a message.
pub struct RoomEffect {
    /// Redraw the room.
    pub render: bool,
    /// Send this to the server.
    pub send: Option<PlayerMessage>,
    /// The game has started: hand the room, as it is now, to the game screen.
    pub game_started: bool,
}

/// The waiting room of this player.
pub struct Room {
    pub lobby: Lobby,
    pub selfid: String,
}

impl Room {
    pub open spec fn wf(&self) -> bool {
        structures::unique_ids(self.lobby.players@)
    }

    /// Whether this player leads the room, and so may start the game.
    pub fn is_leader(&self) -> (b: bool)
        ensures
            b == (self.selfid@ == structures::leader_spec(self.lobby.state)),
    {
        same_text(self.selfid.as_str(), self.lobby.state.leader())
    }

    /// Takes one message (`update`).
    pub fn update(&mut self, msg: Msg) -> (e: RoomEffect)
        requires
            old(self).wf(),
            msg matches Msg::Refresh(l) ==> structures::unique_ids(l.players@),
        ensures
            final(self).wf(),
            final(self).selfid == old(self).selfid,
            match msg {
                Msg::Ignore => !e.render && e.send is None && !e.game_started && final(self).lobby
                    == old(self).lobby,
                Msg::Refresh(l) => e.render && e.send is None && !e.game_started && final(self).lobby
                    == l,
                Msg::StartGame => !e.render && (e.send matches Some(PlayerMessage::StartGame))
                    && !e.game_started && final(self).lobby == old(self).lobby,
                Msg::GameStarted(s) => e.render && e.send is None && e.game_started
                    && final(self).lobby == Lobby { state: s, ..old(self).lobby },
                Msg::LeaderChange(s) => e.render && e.send is None && !e.game_started
                    && final(self).lobby == Lobby { state: s, ..old(self).lobby },
                Msg::PlayerJoined(p) => {
                    &&& e.render && e.send is None && !e.game_started
                    &&& structures::players_map(final(self).lobby.players@) == structures::players_map(
                        old(self).lobby.players@,
                    ).insert(p.id@, p@)
                    &&& final(self).lobby.state == old(self).lobby.state
                },
                Msg::PlayerDisconnected(p) => {
                    &&& e.render && e.send is None && !e.game_started
                    &&& structures::players_map(final(self).lobby.players@) == structures::players_map(
                        old(self).lobby.players@,
                    ).remove(p.id@)
                    &&& final(self).lobby.state == old(self).lobby.state
                },
            },
    {
        match msg {
            Msg::Ignore => RoomEffect { render: false, send: None, game_started: false },
            Msg::Refresh(lobby) => {
                self.lobby = lobby;
                RoomEffect { render: true, send: None, game_started: false }
            },
            Msg::StartGame => RoomEffect { render: false, send: Some(PlayerMessage::StartGame), game_started: false },
            Msg::GameStarted(state) => {
                self.lobby.state = state;
                RoomEffect { render: true, send: None, game_started: true }
            },
            Msg::PlayerJoined(p) => {
                insert_player(&mut self.lobby.players, p);
                RoomEffect { render: true, send: None, game_started: false }
            },
            Msg::PlayerDisconnected(p) => {
                remove_player(&mut self.lobby.players, p.id.as_str());
                RoomEffect { render: true, send: None, game_started: false }
            },
            Msg::LeaderChange(state) => {
                self.lobby.state = state;
                RoomEffect { render: true, send: None, game_started: false }
            },
        }
    }
}

} // verus!

//! The application shell: which screen the address and the room's state
//! select, the keep-alive ping, and the notifications about players.

use crate::notification::{Notification, NotificationType};
use crate::structures::{Lobby, Player, PlayerMessage, State};
use vstd::prelude::*;
use vstd::string::StringExecFns;

verus! {

broadcast use vstd::string::group_string_axioms;

/// The addresses of the application.
#[derive(Clone, Debug)]
pub enum AppRoute {
    /// `/{roomid}`
    Room(String),
    /// `/`
    Home,
}

/// What the shell shows.
pub enum Screen {
    /// The start screen, with the room id to fill in.
    Home(String),
    /// The waiting room.
    Room,
    /// A round.
    Game,
}

pub enum Msg {
    Ignore,
    Ping,
    LobbyJoined(String, Lobby),
    GameStart(Lobby),
    Disconnected,
    PlayerDisconnected(Player),
    PlayerJoined(Player),
}

/// What the shell asks of the application after a message.
pub struct AppEffect {
    pub render: bool,
    pub send: Option<PlayerMessage>,
    pub notify: Option<Notification>,
}

/// The application shell's state.
pub struct App {
    pub lobby: Option<Lobby>,
    pub selfid: String,
}

impl App {
    /// The shell before any room, with this client's id.
    pub fn create(selfid: String) -> (a: App)
        ensures
            a.lobby is None,
            a.selfid == selfid,
    {
        App { lobby: None, selfid }
    }

    /// Takes one message (`update`).
    pub fn update(&mut self, msg: Msg) -> (e: AppEffect)
        ensures
            match msg {
                Msg::Ignore => !e.render && e.send is None && e.notify is None && final(self).lobby
                    == old(self).lobby && final(self).selfid == old(self).selfid,
                Msg::Ping => {
                    &&& !e.render && e.notify is None
                    &&& final(self).lobby == old(self).lobby && final(self).selfid == old(self).selfid
                    &&& if old(self).lobby is Some {
                        e.send matches Some(PlayerMessage::Ping)
                    } else {
                        e.send is None
                    }
                },
                Msg::LobbyJoined(id, l) => e.render && e.send is None && e.notify is None
                    && final(self).lobby == Some(l) && final(self).selfid == id,
                Msg::GameStart(l) => e.render && e.send is None && e.notify is None
                    && final(self).lobby == Some(l) && final(self).selfid == old(self).selfid,
                Msg::Disconnected => {
                    &&& !e.render && e.send is None
                    &&& e.notify matches Some(n) && n@.content == "Disconnected from server"@
                        && n.notification_type == NotificationType::Error
                    &&& final(self).lobby == old(self).lobby && final(self).selfid == old(self).selfid
                },
                Msg::PlayerJoined(p) => {
                    &&& !e.render && e.send is None
                    &&& e.notify matches Some(n) && n@.content == p.name@ + " joined"@
                        && n.notification_type == NotificationType::Info
                    &&& final(self).lobby == old(self).lobby && final(self).selfid == old(self).selfid
                },
                Msg::PlayerDisconnected(p) => {
                    &&& !e.render && e.send is None
                    &&& e.notify matches Some(n) && n@.content == p.name@ + " left"@
                        && n.notification_type == NotificationType::Warning
                    &&& final(self).lobby == old(self).lobby && final(self).selfid == old(self).selfid
                },
            },
    {
        match msg {
            Msg::Ping => {
                let send = if self.lobby.is_some() {
                    Some(PlayerMessage::Ping)
                } else {
                    None
                };
                AppEffect { render: false, send, notify: None }
            },
            Msg::Ignore => AppEffect { render: false, send: None, notify: None },
            Msg::LobbyJoined(selfid, lobby) => {
                self.selfid = selfid;
                self.lobby = Some(lobby);
                AppEffect { render: true, send: None, notify: None }
            },
            Msg::GameStart(lobby) => {
                self.lobby = Some(lobby);
                AppEffect { render: true, send: None, notify: None }
            },
            Msg::Disconnected => {
                let n = Notification {
                    notification_type: NotificationType::Error,
                    content: "Disconnected from server".to_owned(),
                };
                AppEffect { render: false, send: None, notify: Some(n) }
            },
            Msg::PlayerJoined(p) => {
                let mut content = p.name;
                content.append(" joined");
                let n = Notification { notification_type: NotificationType::Info, content };
                AppEffect { render: false, send: None, notify: Some(n) }
            },
            Msg::PlayerDisconnected(p) => {
                let mut content = p.name;
                content.append(" left");
                let n = Notification { notification_type: NotificationType::Warning, content };
                AppEffect { render: false, send: None, notify: Some(n) }
            },
        }
    }

    /// The screen for the address: the start screen when there is no room
    /// yet, else the waiting room or the round, as the room's state says.
    pub fn screen(&self, route: &AppRoute) -> (s: Screen)
        ensures
            match route {
                AppRoute::Home => s matches Screen::Home(p) && p@.len() == 0,
                AppRoute::Room(id) => match self.lobby {
                    None => s matches Screen::Home(p) && p@ == id@,
                    Some(l) => match l.state {
                        State::Lobby(_) => s is Room,
                        State::Game(_, _, _) => s is Game,
                    },
                },
            },
    {
        match route {
            AppRoute::Home => Screen::Home(String::new()),
            AppRoute::Room(id) => match &self.lobby {
                None => Screen::Home(id.clone()),
                Some(l) => match &l.state {
                    State::Lobby(_) => Screen::Room,
                    State::Game(_, _, _) => Screen::Game,
                },
            },
        }
    }
}

} // verus!

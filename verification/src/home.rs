//! The start screen: the player's name, the room to join or create, and the
//! handshake with the server once the socket is open.

use crate::structures::{Lobby, PlayerMessage};
use vstd::prelude::*;

verus! {

broadcast use vstd::string::group_string_axioms;

/// The signalling server.
pub open spec fn signal_url_spec() -> Seq<char> {
    "wss://signalws.herokuapp.com"@
}

/// The signalling server's address.
pub fn signal_url() -> (s: String)
    ensures
        s@ == signal_url_spec(),
{
    "wss://signalws.herokuapp.com".to_owned()
}

pub enum Msg {
    Connected,
    Disconnected,
    ErrorConnecting,
    Connect,
    Ignore,
    LobbyJoined(Lobby),
    NameChange(String),
    RoomIdChange(String),
}

/// What the start screen asks of the application.
pub enum HomeAction {
    /// Open the socket to the url.
    Connect(String),
    /// Send this to the server.
    Send(PlayerMessage),
    /// Go to the room and hand it, with this client's id, to the app.
    EnterRoom(Lobby),
}

pub struct Home {
    pub name: String,
    pub room_id: String,
    pub is_connecting: bool,
}

impl Home {
    /// The start screen, with the room id from the address filled in.
    pub fn create(prefillroomid: String) -> (h: Home)
        ensures
            h.name@ == Seq::<char>::empty(),
            h.room_id == prefillroomid,
            !h.is_connecting,
    {
        Home { name: String::new(), room_id: prefillroomid, is_connecting: false }
    }

    /// The label of the button: create a room when no id is given, else join.
    pub fn button_label(&self) -> (s: &'static str)
        ensures
            s@ == (if self.room_id@.len() == 0 { "Create"@ } else { "Join"@ }),
    {
        if self.room_id.as_str().is_empty() {
            "Create"
        } else {
            "Join"
        }
    }

    /// Whether the room field and the button are disabled.
    pub fn room_disabled(&self) -> (b: bool)
        ensures
            b == (self.name@.len() == 0 || self.is_connecting),
    {
        self.name.as_str().is_empty() || self.is_connecting
    }

    /// Takes one message; `uid` is this client's id. Gives back whether to
    /// redraw and what to do (`update`).
    pub fn update(&mut self, msg: Msg, uid: &str) -> (r: (bool, Vec<HomeAction>))
        ensures
            match msg {
                Msg::NameChange(n) => r.0 && r.1@.len() == 0 && final(self).name == n
                    && final(self).room_id == old(self).room_id && final(self).is_connecting
                    == old(self).is_connecting,
                Msg::RoomIdChange(id) => r.0 && r.1@.len() == 0 && final(self).room_id == id
                    && final(self).name == old(self).name && final(self).is_connecting
                    == old(self).is_connecting,
                Msg::Connect => if old(self).name@.len() == 0 {
                    !r.0 && r.1@.len() == 0 && *final(self) == *old(self)
                } else {
                    &&& r.0
                    &&& r.1@.len() == 1
                    &&& (r.1@[0] matches HomeAction::Connect(u) && u@ == signal_url_spec())
                    &&& final(self).is_connecting
                    &&& final(self).name == old(self).name
                    &&& final(self).room_id == old(self).room_id
                },
                Msg::Connected => {
                    &&& !r.0
                    &&& *final(self) == *old(self)
                    &&& r.1@.len() == 2
                    &&& (r.1@[0] matches HomeAction::Send(PlayerMessage::Initialize(u, n)) && u@ == uid@
                        && n@ == old(self).name@)
                    &&& if old(self).room_id@.len() == 0 {
                        r.1@[1] matches HomeAction::Send(PlayerMessage::CreateLobby)
                    } else {
                        (r.1@[1] matches HomeAction::Send(PlayerMessage::JoinLobby(id)) && id@
                            == old(self).room_id@)
                    }
                },
                Msg::Disconnected | Msg::ErrorConnecting => r.0 && r.1@.len() == 0
                    && !final(self).is_connecting && final(self).name == old(self).name
                    && final(self).room_id == old(self).room_id,
                Msg::LobbyJoined(l) => r.0 && r.1@.len() == 1 && (r.1@[0] matches HomeAction::EnterRoom(x)
                    && x == l) && *final(self) == *old(self),
                Msg::Ignore => !r.0 && r.1@.len() == 0 && *final(self) == *old(self),
            },
    {
        let mut acts: Vec<HomeAction> = Vec::new();
        match msg {
            Msg::NameChange(name) => {
                self.name = name;
                (true, acts)
            },
            Msg::RoomIdChange(id) => {
                self.room_id = id;
                (true, acts)
            },
            Msg::Connect => {
                if self.name.as_str().is_empty() {
                    (false, acts)
                } else {
                    self.is_connecting = true;
                    acts.push(HomeAction::Connect(signal_url()));
                    (true, acts)
                }
            },
            Msg::Connected => {
                acts.push(HomeAction::Send(PlayerMessage::Initialize(uid.to_owned(), self.name.clone())));
                if self.room_id.as_str().is_empty() {
                    acts.push(HomeAction::Send(PlayerMessage::CreateLobby));
                } else {
                    acts.push(HomeAction::Send(PlayerMessage::JoinLobby(self.room_id.clone())));
                }
                (false, acts)
            },
            Msg::Disconnected => {
                self.is_connecting = false;
                (true, acts)
            },
            Msg::ErrorConnecting => {
                self.is_connecting = false;
                (true, acts)
            },
            Msg::LobbyJoined(lobby) => {
                acts.push(HomeAction::EnterRoom(lobby));
                (true, acts)
            },
            Msg::Ignore => (false, acts),
        }
    }
}

} // verus!

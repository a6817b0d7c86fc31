use pictionary::app::{App, AppRoute, Msg as AppMsg, Screen};
use pictionary::home::{signal_url, Home, HomeAction, Msg as HomeMsg};
use pictionary::lobby::Lobby as PeerLobby;
use pictionary::notification::NotificationType;
use pictionary::room::{Msg as RoomMsg, Room};
use pictionary::room_mediator::{Msg as MediatorMsg, Page, RoomMediator};
use pictionary::structures::{GameData, Lobby, Player, PlayerMessage, PlayerStatus, Scores, State, WordState};

fn player(id: &str, name: &str) -> Player {
    Player { id: id.to_string(), name: name.to_string(), status: PlayerStatus::JoinedLobby("r".to_string()) }
}

fn lobby(state: State) -> Lobby {
    Lobby { id: "r".to_string(), players: vec![player("a", "Ann")], state, draw_time: 80 }
}

fn a_round() -> State {
    State::Game(
        "a".to_string(),
        Scores { scores: vec![] },
        GameData { guessed: vec![], time: 80, word: WordState::default_state() },
    )
}

#[test]
fn home_starts_empty() {
    let h = Home::create("r9".to_string());
    assert_eq!(h.name, "");
    assert_eq!(h.room_id, "r9");
    assert!(!h.is_connecting);
    assert_eq!(h.button_label(), "Join");
    assert!(h.room_disabled());
    let h = Home::create(String::new());
    assert_eq!(h.button_label(), "Create");
}

#[test]
fn home_needs_a_name_to_connect() {
    let mut h = Home::create(String::new());
    let (render, acts) = h.update(HomeMsg::Connect, "uid");
    assert!(!render && acts.is_empty());
    assert!(!h.is_connecting);
    h.update(HomeMsg::NameChange("ann".to_string()), "uid");
    assert!(!h.room_disabled());
    let (render, acts) = h.update(HomeMsg::Connect, "uid");
    assert!(render);
    assert!(matches!(&acts[0], HomeAction::Connect(u) if u == "wss://signalws.herokuapp.com"));
    assert!(h.is_connecting);
    assert!(h.room_disabled());
    assert_eq!(signal_url(), "wss://signalws.herokuapp.com");
}

#[test]
fn home_creates_or_joins_once_connected() {
    let mut h = Home::create(String::new());
    h.update(HomeMsg::NameChange("ann".to_string()), "uid");
    let (render, acts) = h.update(HomeMsg::Connected, "u1");
    assert!(!render);
    assert!(matches!(&acts[0], HomeAction::Send(PlayerMessage::Initialize(u, n)) if u == "u1" && n == "ann"));
    assert!(matches!(&acts[1], HomeAction::Send(PlayerMessage::CreateLobby)));
    h.update(HomeMsg::RoomIdChange("r5".to_string()), "u1");
    let (_, acts) = h.update(HomeMsg::Connected, "u1");
    assert!(matches!(&acts[1], HomeAction::Send(PlayerMessage::JoinLobby(r)) if r == "r5"));
}

#[test]
fn home_gives_up_connecting_on_errors() {
    let mut h = Home::create(String::new());
    h.update(HomeMsg::NameChange("ann".to_string()), "uid");
    h.update(HomeMsg::Connect, "uid");
    let (render, _) = h.update(HomeMsg::ErrorConnecting, "uid");
    assert!(render && !h.is_connecting);
    h.update(HomeMsg::Connect, "uid");
    h.update(HomeMsg::Disconnected, "uid");
    assert!(!h.is_connecting);
    let (render, acts) = h.update(HomeMsg::LobbyJoined(lobby(State::Lobby("a".to_string()))), "uid");
    assert!(render);
    assert!(matches!(&acts[0], HomeAction::EnterRoom(l) if l.id == "r"));
    let (render, acts) = h.update(HomeMsg::Ignore, "uid");
    assert!(!render && acts.is_empty());
}

#[test]
fn the_room_screen() {
    let mut r = Room { lobby: lobby(State::Lobby("a".to_string())), selfid: "a".to_string() };
    assert!(r.is_leader());
    let e = r.update(RoomMsg::StartGame);
    assert!(!e.render && matches!(e.send, Some(PlayerMessage::StartGame)));
    let e = r.update(RoomMsg::PlayerJoined(player("b", "Bob")));
    assert!(e.render);
    assert_eq!(r.lobby.players.len(), 2);
    r.update(RoomMsg::PlayerDisconnected(player("a", "Ann")));
    assert_eq!(r.lobby.players.len(), 1);
    r.update(RoomMsg::LeaderChange(State::Lobby("b".to_string())));
    assert!(!r.is_leader());
    let e = r.update(RoomMsg::GameStarted(a_round()));
    assert!(e.game_started && e.render);
    let e = r.update(RoomMsg::Refresh(lobby(State::Lobby("a".to_string()))));
    assert!(e.render && !e.game_started);
    assert!(r.is_leader());
    let e = r.update(RoomMsg::Ignore);
    assert!(!e.render && e.send.is_none());
}

#[test]
fn the_app_shell() {
    let mut a = App::create("me".to_string());
    assert!(matches!(a.screen(&AppRoute::Room("r3".to_string())), Screen::Home(p) if p == "r3"));
    assert!(matches!(a.screen(&AppRoute::Home), Screen::Home(p) if p.is_empty()));
    assert!(a.update(AppMsg::Ping).send.is_none());
    let e = a.update(AppMsg::LobbyJoined("id7".to_string(), lobby(State::Lobby("a".to_string()))));
    assert!(e.render);
    assert_eq!(a.selfid, "id7");
    assert!(matches!(a.update(AppMsg::Ping).send, Some(PlayerMessage::Ping)));
    assert!(matches!(a.screen(&AppRoute::Room("r".to_string())), Screen::Room));
    a.update(AppMsg::GameStart(lobby(a_round())));
    assert!(matches!(a.screen(&AppRoute::Room("r".to_string())), Screen::Game));
}

#[test]
fn the_app_notifies_about_players() {
    let mut a = App::create("me".to_string());
    let n = a.update(AppMsg::PlayerJoined(player("b", "Bob"))).notify.unwrap();
    assert_eq!(n.content, "Bob joined");
    assert_eq!(n.notification_type, NotificationType::Info);
    let n = a.update(AppMsg::PlayerDisconnected(player("b", "Bob"))).notify.unwrap();
    assert_eq!(n.content, "Bob left");
    assert_eq!(n.notification_type, NotificationType::Warning);
    let n = a.update(AppMsg::Disconnected).notify.unwrap();
    assert_eq!(n.content, "Disconnected from server");
    assert_eq!(n.notification_type, NotificationType::Error);
    assert!(a.update(AppMsg::Ignore).notify.is_none());
}

#[test]
fn the_mediator_waits_for_the_lobby() {
    let mut m = RoomMediator::create(Page::Game);
    assert_eq!(m.update(MediatorMsg::Ignore), (false, false));
    assert_eq!(m.update(MediatorMsg::ReceiveLobby(None)), (true, true));
    assert!(m.lobby.is_none());
    assert_eq!(m.update(MediatorMsg::ReceiveLobby(Some(PeerLobby::new_room("x".to_string())))), (true, false));
    assert_eq!(m.lobby.as_ref().unwrap().roomid, "x");
    assert_eq!(m.page, Page::Game);
}

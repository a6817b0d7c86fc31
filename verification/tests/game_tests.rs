use pictionary::gameroom::{Game, Msg as GameMsg, WordMask, WordPanel};
use pictionary::peer::PeerWidget;
use pictionary::structures::{
    find_player, has_id, has_unique_ids, insert_player, remove_player, same_text, score_of, CloseCodes, GameData, Lobby,
    Player, PlayerMessage, PlayerStatus, Scores, State, WordState,
};

fn player(id: &str, name: &str) -> Player {
    Player { id: id.to_string(), name: name.to_string(), status: PlayerStatus::Initiated }
}

fn lobby(state: State) -> Lobby {
    Lobby {
        id: "room".to_string(),
        players: vec![player("a", "Ann"), player("b", "Bob")],
        state,
        draw_time: 60,
    }
}

fn round(leader: &str, word: WordState, guessed: Vec<&str>, time: u32) -> State {
    State::Game(
        leader.to_string(),
        Scores { scores: vec![("a".to_string(), 3), ("b".to_string(), 12)] },
        GameData { guessed: guessed.into_iter().map(|s| s.to_string()).collect(), time, word },
    )
}

#[test]
fn same_text_compares_whole_strings() {
    assert!(same_text("abc", "abc"));
    assert!(!same_text("abc", "abd"));
    assert!(!same_text("abc", "ab"));
    assert!(same_text("", ""));
}

#[test]
fn players_are_filed_by_id() {
    let mut ps = vec![player("a", "Ann")];
    insert_player(&mut ps, player("b", "Bob"));
    insert_player(&mut ps, player("a", "Anna"));
    assert_eq!(ps.len(), 2);
    assert_eq!(ps[find_player(&ps, "a").unwrap()].name, "Anna");
    remove_player(&mut ps, "a");
    assert_eq!(find_player(&ps, "a"), None);
    remove_player(&mut ps, "zz");
    assert_eq!(ps.len(), 1);
}

#[test]
fn join_then_leave_restores_the_players() {
    let mut ps = vec![player("a", "Ann"), player("b", "Bob")];
    insert_player(&mut ps, player("c", "Cy"));
    remove_player(&mut ps, "c");
    let ids: Vec<&str> = ps.iter().map(|p| p.id.as_str()).collect();
    assert_eq!(ids, vec!["a", "b"]);
}

#[test]
fn score_of_defaults_to_zero() {
    let s = Scores { scores: vec![("a".to_string(), 3), ("b".to_string(), 12)] };
    assert_eq!(score_of(&s, "b"), 12);
    assert_eq!(score_of(&s, "c"), 0);
}

#[test]
fn has_id_finds_exact_ids() {
    let ids = vec!["a".to_string(), "bb".to_string()];
    assert!(has_id(&ids, "bb"));
    assert!(!has_id(&ids, "b"));
}

#[test]
fn the_leader_of_either_state() {
    assert_eq!(State::Lobby("x".to_string()).leader(), "x");
    assert_eq!(round("y", WordState::default_state(), vec![], 0).leader(), "y");
}

#[test]
fn close_codes_print_their_names() {
    assert_eq!(CloseCodes::WrongInit.describe(), "WrongInit");
    assert_eq!(CloseCodes::CantCreateLobby.describe(), "CantCreateLobby");
    assert_eq!(CloseCodes::CantLoinLobbyDoestExist.describe(), "CantLoinLobbyDoestExist");
    assert_eq!(CloseCodes::NewSessionOpened.describe(), "NewSessionOpened");
}

#[test]
fn default_word_state_offers_nothing() {
    assert!(matches!(WordState::default_state(), WordState::ChoseWords(v) if v.is_empty()));
}

#[test]
fn the_mask_hides_every_non_space_character() {
    let g = Game::create(lobby(round("a", WordState::Word("cat dog".to_string()), vec![], 30)), "b".to_string())
        .unwrap();
    assert!(matches!(g.word_panel(), WordPanel::Word(w) if w == "___ ___"));
}

#[test]
fn the_leader_sees_the_word() {
    let g = Game::create(lobby(round("a", WordState::Word("cat dog".to_string()), vec![], 30)), "a".to_string())
        .unwrap();
    assert!(matches!(g.word_panel(), WordPanel::Word(w) if w == "cat dog"));
    assert!(g.can_draw());
    assert_eq!(g.time(), 30);
}

#[test]
fn while_the_leader_chooses() {
    let words = WordState::ChoseWords(vec!["x".to_string(), "y".to_string()]);
    let g = Game::create(lobby(round("a", words.clone(), vec![], 0)), "a".to_string()).unwrap();
    assert!(matches!(g.word_panel(), WordPanel::ChooseWords(ws) if ws == vec!["x".to_string(), "y".to_string()]));
    assert!(!g.can_draw());
    let g = Game::create(lobby(round("a", words, vec![], 0)), "b".to_string()).unwrap();
    assert!(matches!(g.word_panel(), WordPanel::Choosing(t) if t == "Ann is choosing the word"));
    assert!(!g.can_draw());
}

#[test]
fn a_leader_not_in_the_room_has_no_name() {
    let g = Game::create(lobby(round("z", WordState::default_state(), vec![], 0)), "b".to_string()).unwrap();
    assert!(matches!(g.word_panel(), WordPanel::Choosing(t) if t == " is choosing the word"));
}

#[test]
fn the_waiting_room_shows_no_word() {
    let g = Game::create(lobby(State::Lobby("a".to_string())), "a".to_string()).unwrap();
    assert!(matches!(g.word_panel(), WordPanel::Hidden));
    assert_eq!(g.time(), 0);
    assert!(!g.can_draw());
}

#[test]
fn game_updates() {
    let mut g = Game::create(lobby(State::Lobby("a".to_string())), "a".to_string()).unwrap();
    assert!(matches!(g.update(GameMsg::Ignore), (false, None)));
    let (render, send) = g.update(GameMsg::ChooseWord("cat".to_string()));
    assert!(render);
    assert!(matches!(send, Some(PlayerMessage::WordChosen(w)) if w == "cat"));
    g.update(GameMsg::PlayerJoin(player("c", "Cy")));
    assert_eq!(g.lobby.players.len(), 3);
    g.update(GameMsg::PlayerDisconnect(player("a", "Ann")));
    assert_eq!(g.lobby.players.len(), 2);
    let (render, send) = g.update(GameMsg::LeaderChange(round("c", WordState::default_state(), vec![], 9)));
    assert!(render && send.is_none());
    assert_eq!(g.lobby.state.leader(), "c");
}

#[test]
fn a_word_mask_of_another_pattern() {
    let m = WordMask::compile("[aeiou]");
    assert!(m.is_some());
    assert!(WordMask::compile("(").is_none());
}

fn card(state: &State, id: &str) -> PeerWidget {
    PeerWidget { state: state.clone(), peer: player(id, "X") }
}

#[test]
fn card_colours() {
    let s = round("a", WordState::default_state(), vec!["b"], 0);
    assert_eq!(card(&s, "a").color(), "blue");
    assert_eq!(card(&s, "b").color(), "green");
    assert_eq!(card(&s, "c").color(), "black");
    assert_eq!(card(&State::Lobby("a".to_string()), "a").color(), "transparent");
}

#[test]
fn card_scores() {
    let s = round("a", WordState::default_state(), vec![], 0);
    assert_eq!(card(&s, "b").score(), Some("12".to_string()));
    assert_eq!(card(&s, "q").score(), Some("0".to_string()));
    assert_eq!(card(&State::Lobby("a".to_string()), "a").score(), None);
}

#[test]
fn card_takes_new_properties() {
    let mut c = card(&State::Lobby("a".to_string()), "a");
    assert!(c.change(round("a", WordState::default_state(), vec![], 0), player("b", "Bob")));
    assert_eq!(c.peer.name, "Bob");
    assert_eq!(c.color(), "black");
}

#[test]
fn unique_ids_are_checked() {
    assert!(has_unique_ids(&vec![player("a", "Ann"), player("b", "Bob")]));
    assert!(has_unique_ids(&vec![]));
    assert!(!has_unique_ids(&vec![player("a", "Ann"), player("b", "Bob"), player("a", "Al")]));
}

#[test]
fn the_mask_keeps_unicode_whitespace() {
    let g = Game::create(lobby(round("a", WordState::Word("é\u{3000}b\tc ".to_string()), vec![], 30)), "b".to_string())
        .unwrap();
    assert!(matches!(g.word_panel(), WordPanel::Word(w) if w == "_\u{3000}_\t_ "));
}

#[test]
fn scores_keep_one_score_per_id() {
    let mut s = Scores::new();
    s.insert("a".to_string(), 3);
    s.insert("b".to_string(), 5);
    s.insert("a".to_string(), 9);
    assert_eq!(s.scores.len(), 2);
    assert_eq!(score_of(&s, "a"), 9);
    assert_eq!(score_of(&s, "b"), 5);
    assert_eq!(score_of(&s, "z"), 0);
}

#[test]
fn the_word_mask_always_compiles() {
    assert!(WordMask::non_whitespace().is_some());
    assert!(Game::create(lobby(State::Lobby("a".to_string())), "a".to_string()).is_some());
}

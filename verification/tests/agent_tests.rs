use pictionary::lobby::Peer;
use pictionary::socket_agent::{
    AgentAction, AgentInput, AgentOutput, LobbyInputs, LobbyOutputs, Msg, SocketAgent, SocketInputs,
    SocketOutputs,
};
use pictionary::wire::{parse_string_todata, TransferData};

fn td(cmd: &str, id: Option<&str>, data: Option<&str>) -> TransferData {
    TransferData {
        command: cmd.to_string(),
        id: id.map(|s| s.to_string()),
        data: data.map(|s| s.to_string()),
    }
}

fn sent_to_peers(acts: &[AgentAction]) -> Vec<(u32, String)> {
    let mut v: Vec<(u32, String)> = acts
        .iter()
        .filter_map(|a| match a {
            AgentAction::SendPeer(id, s) => Some((*id, s.clone())),
            _ => None,
        })
        .collect();
    v.sort();
    v
}

/// An agent named "ann" with an open socket, id 5, in room "r1", and a peer
/// 9 with a connection and a data channel.
fn joined_agent() -> SocketAgent {
    let mut a = SocketAgent::create();
    a.handle_input(
        AgentInput::SocketInput(SocketInputs::Connect("wss://x".to_string(), "ann".to_string())),
        1,
    );
    a.update(Msg::Connected("wss://x".to_string()));
    a.update(Msg::SocketMessage(td("I: ", Some("5"), None)));
    a.update(Msg::SocketMessage(td("J: ", Some("r1"), None)));
    a.update(Msg::SocketMessage(td("N: ", Some("9"), None)));
    a.connection_created(9);
    a.update(Msg::PeerDataChannel(9));
    a
}

#[test]
fn subscribers_come_and_go() {
    let mut a = SocketAgent::create();
    a.connected(3);
    a.connected(4);
    a.connected(3);
    a.disconnected(3);
    assert_eq!(a.subscribers, vec![4, 3]);
    a.disconnected(8);
    assert_eq!(a.subscribers, vec![4, 3]);
}

#[test]
fn connect_opens_the_socket_and_keeps_the_name() {
    let mut a = SocketAgent::create();
    let acts = a.handle_input(
        AgentInput::SocketInput(SocketInputs::Connect("wss://s".to_string(), "ann".to_string())),
        1,
    );
    assert_eq!(acts.len(), 1);
    assert!(matches!(&acts[0], AgentAction::OpenSocket(u) if u == "wss://s"));
    assert_eq!(a.name, Some("ann".to_string()));
    let acts = a.update(Msg::Connected("wss://s".to_string()));
    assert!(a.socket_open);
    assert!(matches!(&acts[0], AgentAction::Broadcast(AgentOutput::SocketOutput(SocketOutputs::Connected))));
    let acts = a.update(Msg::Disconnected);
    assert!(!a.socket_open);
    assert!(matches!(&acts[0], AgentAction::Broadcast(AgentOutput::SocketOutput(SocketOutputs::Disconnected))));
}

#[test]
fn init_message_sets_the_id_of_this_client() {
    let mut a = SocketAgent::create();
    a.name = Some("ann".to_string());
    let acts = a.update(Msg::SocketMessage(td("I: ", Some(" 12 "), None)));
    let l = a.lobby.as_ref().unwrap();
    assert_eq!(l.selfid, 12);
    assert_eq!(l.peers[&12].name, "ann");
    assert!(l.peers[&12].is_self);
    assert_eq!(acts.len(), 1);
    assert!(matches!(&acts[0], AgentAction::Broadcast(AgentOutput::SocketOutput(SocketOutputs::SocketMessage(_)))));
}

#[test]
fn init_message_with_a_bad_id_changes_nothing() {
    let mut a = SocketAgent::create();
    a.update(Msg::SocketMessage(td("I: ", Some("x1"), None)));
    assert!(a.lobby.is_none());
}

#[test]
fn join_message_sets_the_room_and_tells_the_subscribers() {
    let mut a = SocketAgent::create();
    a.update(Msg::SocketMessage(td("I: ", Some("5"), None)));
    let acts = a.update(Msg::SocketMessage(td("J: ", Some("room7"), None)));
    assert_eq!(a.lobby.as_ref().unwrap().roomid, "room7");
    assert!(matches!(&acts[0], AgentAction::Broadcast(AgentOutput::LobbyOutput(LobbyOutputs::Connected(l))) if l.roomid == "room7"));
}

#[test]
fn new_peer_message_adds_the_peer_and_queues_a_connection() {
    let mut a = SocketAgent::create();
    a.update(Msg::SocketMessage(td("I: ", Some("5"), None)));
    let acts = a.update(Msg::SocketMessage(td("N: ", Some("9"), None)));
    assert!(a.lobby.as_ref().unwrap().peers.contains_key(&9));
    assert!(matches!(acts[0], AgentAction::QueuePeerConnect(9)));
    let acts = a.update(Msg::PeerConnect(9));
    assert!(matches!(acts[0], AgentAction::CreatePeerConnection { peer: 9, self_id: 5, initiator: true }));
    a.update(Msg::SocketMessage(td("N: ", Some("2"), None)));
    let acts = a.update(Msg::PeerConnect(2));
    assert!(matches!(acts[0], AgentAction::CreatePeerConnection { peer: 2, self_id: 5, initiator: false }));
}

#[test]
fn relayed_offers_go_to_connected_peers_only() {
    let mut a = joined_agent();
    let acts = a.update(Msg::SocketMessage(td("O: ", Some("9"), Some("sdp-offer"))));
    assert!(matches!(&acts[0], AgentAction::ApplyOffer(9, s) if s == "sdp-offer"));
    let acts = a.update(Msg::SocketMessage(td("A: ", Some("9"), Some("sdp-answer"))));
    assert!(matches!(&acts[0], AgentAction::ApplyAnswer(9, s) if s == "sdp-answer"));
    let acts = a.update(Msg::SocketMessage(td("C: ", Some("9"), Some("cand"))));
    assert!(matches!(&acts[0], AgentAction::AddIceCandidate(9, s) if s == "cand"));
    let acts = a.update(Msg::SocketMessage(td("O: ", Some("4"), Some("sdp"))));
    assert_eq!(acts.len(), 1);
}

#[test]
fn data_channel_is_watched_and_opening_it_sends_the_name() {
    let mut a = SocketAgent::create();
    a.name = Some("ann".to_string());
    a.update(Msg::SocketMessage(td("I: ", Some("5"), None)));
    a.update(Msg::SocketMessage(td("N: ", Some("9"), None)));
    let acts = a.update(Msg::PeerDataChannel(9));
    assert!(matches!(acts[0], AgentAction::WatchDataChannel { peer: 9, watch_ice: false }));
    assert!(a.lobby.as_ref().unwrap().peers[&9].has_channel);
    let acts = a.update(Msg::PeerDataChannelOpened(9));
    assert!(matches!(&acts[0], AgentAction::SendPeer(9, s) if s == "N: ann\n"));
}

#[test]
fn a_name_from_a_peer_makes_it_ready() {
    let mut a = joined_agent();
    let acts = a.update(Msg::PeerDataChannelMessage(9, parse_string_todata("N: bob\n")));
    let l = a.lobby.as_ref().unwrap();
    assert!(l.peers[&9].is_ready);
    assert_eq!(l.peers[&9].name, "bob");
    assert_eq!(acts.len(), 2);
    assert!(matches!(&acts[0], AgentAction::Broadcast(AgentOutput::LobbyOutput(LobbyOutputs::LobbyRefresh(_)))));
    assert!(matches!(&acts[1], AgentAction::Broadcast(AgentOutput::LobbyOutput(LobbyOutputs::PeerMessage(9, _, _)))));
}

#[test]
fn broadcast_reaches_other_peers_with_a_channel_only() {
    let mut a = joined_agent();
    a.update(Msg::SocketMessage(td("N: ", Some("11"), None)));
    let acts = a.handle_input(
        AgentInput::LobbyInput(LobbyInputs::PeerBroadcastMessage(td("X", None, Some("hello")))),
        1,
    );
    assert_eq!(sent_to_peers(&acts), vec![(9, "X: \nhello".to_string())]);
    assert_eq!(acts.len(), 1);
}

#[test]
fn binary_broadcast_reaches_peers_with_a_channel() {
    let mut a = joined_agent();
    let acts = a.handle_input(
        AgentInput::LobbyInput(LobbyInputs::PeerBroadcastBinaryMessage(vec![1, 2, 3])),
        1,
    );
    assert_eq!(acts.len(), 1);
    assert!(matches!(&acts[0], AgentAction::SendPeerBinary(9, b) if b == &vec![1, 2, 3]));
    let acts = a.send_peer_binary(4, &vec![1]);
    assert!(acts.is_empty());
}

#[test]
fn word_change_clears_guesses_and_tells_everybody() {
    let mut a = joined_agent();
    a.lobby.as_mut().unwrap().mark_guessed(9);
    let acts = a.handle_input(AgentInput::LobbyInput(LobbyInputs::ChangeWord("apple".to_string())), 1);
    let l = a.lobby.as_ref().unwrap();
    assert_eq!(l.word, "apple");
    assert!(l.peers.values().all(|p| !p.guessed));
    assert!(matches!(&acts[0], AgentAction::Broadcast(AgentOutput::LobbyOutput(LobbyOutputs::WordChanged(w))) if w == "apple"));
    assert!(matches!(&acts[1], AgentAction::Broadcast(AgentOutput::LobbyOutput(LobbyOutputs::LobbyRefresh(_)))));
    assert_eq!(sent_to_peers(&acts), vec![(9, "W: \napple".to_string())]);
}

#[test]
fn a_right_guess_marks_the_sender() {
    let mut a = joined_agent();
    a.change_word("apple".to_string(), false);
    let acts = a.update(Msg::PeerDataChannelMessage(9, td("C", None, Some("APPLE"))));
    assert!(a.lobby.as_ref().unwrap().peers[&9].guessed);
    assert!(!a.lobby.as_ref().unwrap().peers[&5].guessed);
    assert_eq!(acts.len(), 2);
    let acts = a.update(Msg::PeerDataChannelMessage(9, td("C", None, Some("pear"))));
    assert_eq!(acts.len(), 1);
}

#[test]
fn check_right_word_ignores_case_only() {
    let mut a = joined_agent();
    a.change_word("Cat".to_string(), false);
    let (right, _) = a.check_right_word(9, &td("C", None, Some("cAT")));
    assert!(right);
    let (right, _) = a.check_right_word(9, &td("C", None, Some("cats")));
    assert!(!right);
    let (right, _) = a.check_right_word(9, &td("D", None, Some("cat")));
    assert!(!right);
}

#[test]
fn turn_change_clears_the_word_and_tells_everybody() {
    let mut a = joined_agent();
    a.change_word("apple".to_string(), false);
    let acts = a.handle_input(AgentInput::LobbyInput(LobbyInputs::ChangeTurn(9)), 1);
    let l = a.lobby.as_ref().unwrap();
    assert_eq!(l.turn, 9);
    assert_eq!(l.word, "");
    assert!(matches!(&acts[0], AgentAction::Broadcast(AgentOutput::LobbyOutput(LobbyOutputs::TurnChaned(9, 9)))));
    assert_eq!(sent_to_peers(&acts), vec![(9, "T: 9\n".to_string())]);
}

#[test]
fn turn_message_from_a_peer_applies() {
    let mut a = joined_agent();
    a.change_word("apple".to_string(), false);
    a.update(Msg::PeerDataChannelMessage(9, parse_string_todata("T: 42\n")));
    let l = a.lobby.as_ref().unwrap();
    assert_eq!(l.turn, 42);
    assert_eq!(l.word, "");
    a.update(Msg::PeerDataChannelMessage(9, parse_string_todata("W: \npear")));
    assert_eq!(a.lobby.as_ref().unwrap().word, "pear");
}

#[test]
fn sealing_drops_unready_peers_and_tells_everybody() {
    let mut a = joined_agent();
    a.update(Msg::PeerDataChannelMessage(9, parse_string_todata("N: bob\n")));
    a.update(Msg::SocketMessage(td("N: ", Some("11"), None)));
    let acts = a.handle_input(AgentInput::LobbyInput(LobbyInputs::SealLobby), 1);
    let l = a.lobby.as_ref().unwrap();
    assert!(l.sealed);
    assert!(!l.peers.contains_key(&11));
    assert!(l.peers.contains_key(&9));
    assert!(l.peers.contains_key(&5));
    assert!(matches!(&acts[0], AgentAction::Broadcast(AgentOutput::LobbyOutput(LobbyOutputs::Sealed))));
    assert_eq!(sent_to_peers(&acts), vec![(9, "S: \n".to_string())]);
    assert!(matches!(acts.last().unwrap(), AgentAction::SendSocket(s) if s == "S: \n"));
}

#[test]
fn seal_from_the_server_seals_the_lobby() {
    let mut a = joined_agent();
    let acts = a.update(Msg::SocketMessage(td("S: ", None, None)));
    assert!(a.lobby.as_ref().unwrap().sealed);
    assert!(matches!(&acts[0], AgentAction::Broadcast(AgentOutput::LobbyOutput(LobbyOutputs::Sealed))));
}

#[test]
fn request_lobby_answers_the_asker_only() {
    let mut a = SocketAgent::create();
    let acts = a.handle_input(AgentInput::LobbyInput(LobbyInputs::RequestLobby), 42);
    assert!(matches!(&acts[0], AgentAction::Respond(42, AgentOutput::LobbyOutput(LobbyOutputs::RequestResult(None)))));
    let mut a = joined_agent();
    let acts = a.handle_input(AgentInput::LobbyInput(LobbyInputs::RequestLobby), 7);
    assert!(matches!(&acts[0], AgentAction::Respond(7, AgentOutput::LobbyOutput(LobbyOutputs::RequestResult(Some(l)))) if l.roomid == "r1"));
}

#[test]
fn socket_data_is_sent_only_when_open() {
    let mut a = SocketAgent::create();
    let acts = a.handle_input(AgentInput::SocketInput(SocketInputs::SendData(td("X", Some("1"), None))), 1);
    assert!(acts.is_empty());
    a.update(Msg::Connected("u".to_string()));
    let acts = a.update(Msg::SendSocketMessage(td("X", Some("1"), None)));
    assert!(matches!(&acts[0], AgentAction::SendSocket(s) if s == "X: 1\n"));
}

#[test]
fn a_peer_that_leaves_is_dropped() {
    let mut a = joined_agent();
    let acts = a.update(Msg::PeerDisconnect(9));
    assert!(!a.lobby.as_ref().unwrap().peers.contains_key(&9));
    assert!(matches!(&acts[0], AgentAction::Broadcast(AgentOutput::LobbyOutput(LobbyOutputs::LobbyRefresh(_)))));
}

#[test]
fn peer_messages_need_a_channel() {
    let mut a = joined_agent();
    a.lobby.as_mut().unwrap().put_peer(3, Peer::new_remote(3));
    let acts = a.handle_input(AgentInput::LobbyInput(LobbyInputs::PeerMessage(3, td("X", None, None))), 1);
    assert!(acts.is_empty());
    let acts = a.handle_input(AgentInput::LobbyInput(LobbyInputs::PeerMessage(9, td("X", None, None))), 1);
    assert!(matches!(&acts[0], AgentAction::SendPeer(9, s) if s == "X: \n"));
}

#[test]
fn binary_from_a_peer_is_handed_on() {
    let mut a = joined_agent();
    let acts = a.update(Msg::PeerDataChannelBinaryMessage(9, vec![7, 8]));
    assert!(matches!(&acts[0], AgentAction::Broadcast(AgentOutput::LobbyOutput(LobbyOutputs::PeerBinaryMessage(9, b))) if b == &vec![7, 8]));
    assert!(a.update(Msg::Ignore).is_empty());
}

#[test]
fn seal_from_a_peer_seals_the_lobby() {
    let mut a = joined_agent();
    let acts = a.update(Msg::PeerDataChannelMessage(9, parse_string_todata("S: \n")));
    assert!(a.lobby.as_ref().unwrap().sealed);
    assert!(a.lobby.as_ref().unwrap().peers.contains_key(&9));
    assert!(matches!(&acts[0], AgentAction::Broadcast(AgentOutput::LobbyOutput(LobbyOutputs::Sealed))));
}

#[test]
fn an_announced_peer_that_leaves_leaves_the_lobby_as_it_was() {
    let mut a = joined_agent();
    let mut before: Vec<u32> = a.lobby.as_ref().unwrap().peers.keys().copied().collect();
    before.sort();
    a.update(Msg::SocketMessage(td("N: ", Some("21"), None)));
    assert!(a.lobby.as_ref().unwrap().peers.contains_key(&21));
    a.update(Msg::PeerDisconnect(21));
    let mut after: Vec<u32> = a.lobby.as_ref().unwrap().peers.keys().copied().collect();
    after.sort();
    assert_eq!(before, after);
}

fn agent_with_id(id: &str) -> SocketAgent {
    let mut a = SocketAgent::create();
    a.update(Msg::SocketMessage(td("I: ", Some(id), None)));
    a
}

fn initiates(a: &mut SocketAgent, other: &str, other_id: u32) -> bool {
    a.update(Msg::SocketMessage(td("N: ", Some(other), None)));
    let acts = a.update(Msg::PeerConnect(other_id));
    assert_eq!(acts.len(), 1);
    match acts[0] {
        AgentAction::CreatePeerConnection { initiator, .. } => initiator,
        _ => panic!("no peer connection"),
    }
}

#[test]
fn exactly_one_side_opens_the_channel() {
    let mut a = agent_with_id("5");
    let mut b = agent_with_id("9");
    let ai = initiates(&mut a, "9", 9);
    let bi = initiates(&mut b, "5", 5);
    assert!(ai && !bi);
}

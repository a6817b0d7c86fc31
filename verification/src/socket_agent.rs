//! The client's connection agent as a state machine: it takes the events of
//! the signalling socket, of the peer data channels and of the components
//! that subscribe to it, updates the lobby, and answers with the actions that
//! the application performs (messages to send, outputs to hand to the
//! subscribers, peer connections to open).

use crate::lobby::{self, Lobby, LobbyView, Peer, PeerView};
use crate::text::{self, eq_ignore_ascii_case, starts_with, u32_to_string};
use crate::wire::{self, frame_transfer, parse_string_todata, TransferData, TransferView};
use vstd::prelude::*;

verus! {

broadcast use vstd::string::group_string_axioms;

/// What a component asks of the agent.
pub enum AgentInput {
    SocketInput(SocketInputs),
    LobbyInput(LobbyInputs),
}

pub enum SocketInputs {
    /// Opens the socket at the url, as the player with the name.
    Connect(String, String),
    SendData(TransferData),
}

pub enum LobbyInputs {
    RequestLobby,
    PeerMessage(u32, TransferData),
    PeerBroadcastMessage(TransferData),
    PeerBroadcastBinaryMessage(Vec<u8>),
    SealLobby,
    ChangeTurn(u32),
    ChangeWord(String),
}

/// What the agent tells its subscribers.
#[derive(Clone, Debug)]
pub enum AgentOutput {
    SocketOutput(SocketOutputs),
    LobbyOutput(LobbyOutputs),
}

#[derive(Clone, Debug)]
pub enum SocketOutputs {
    Connected,
    ErrorConnecting,
    Disconnected,
    SocketMessage(TransferData),
}

#[derive(Clone, Debug)]
pub enum LobbyOutputs {
    Connected(Lobby),
    PeerMessage(u32, TransferData, Lobby),
    PeerBinaryMessage(u32, Vec<u8>),
    LobbyRefresh(Lobby),
    RequestResult(Option<Lobby>),
    TurnChaned(u32, u32),
    WordChanged(String),
    Sealed,
}

/// The events that reach the agent from the socket, the peers and itself.
pub enum Msg {
    /// The socket to the url is open.
    Connected(String),
    Disconnected,
    SocketMessage(TransferData),
    PeerConnect(u32),
    /// A data channel to the peer exists.
    PeerDataChannel(u32),
    PeerDataChannelOpened(u32),
    PeerDataChannelMessage(u32, TransferData),
    PeerDataChannelBinaryMessage(u32, Vec<u8>),
    PeerDisconnect(u32),
    SendSocketMessage(TransferData),
    Ignore,
}

/// What the application does on the agent's behalf.
pub enum AgentAction {
    /// Hands the output to every subscriber.
    Broadcast(AgentOutput),
    /// Hands the output to one subscriber.
    Respond(u64, AgentOutput),
    /// Sends the text over the signalling socket.
    SendSocket(String),
    /// Sends the text over the data channel of the peer.
    SendPeer(u32, String),
    SendPeerBinary(u32, Vec<u8>),
    /// Opens the signalling socket at the url.
    OpenSocket(String),
    /// Feeds `Msg::PeerConnect` for the peer back to the agent.
    QueuePeerConnect(u32),
    /// Creates the browser's peer connection to `peer`; the connection makes
    /// the offer and opens the data channel when `initiator`.
    CreatePeerConnection { peer: u32, self_id: u32, initiator: bool },
    /// Applies the encoded session description or candidate that the server
    /// relayed from the peer.
    ApplyOffer(u32, String),
    ApplyAnswer(u32, String),
    AddIceCandidate(u32, String),
    /// Listens to the peer's data channel, and also to the state of its
    /// connection when `watch_ice`.
    WatchDataChannel { peer: u32, watch_ice: bool },
}

pub ghost enum OutputView {
    SocketConnected,
    SocketErrorConnecting,
    SocketDisconnected,
    SocketMessage(TransferView),
    LobbyConnected(LobbyView),
    PeerMessage(u32, TransferView, LobbyView),
    PeerBinaryMessage(u32, Seq<u8>),
    LobbyRefresh(LobbyView),
    RequestResult(Option<LobbyView>),
    TurnChanged(u32, u32),
    WordChanged(Seq<char>),
    Sealed,
}

pub ghost enum ActionView {
    Broadcast(OutputView),
    Respond(u64, OutputView),
    SendSocket(Seq<char>),
    SendPeer(u32, Seq<char>),
    SendPeerBinary(u32, Seq<u8>),
    OpenSocket(Seq<char>),
    QueuePeerConnect(u32),
    CreatePeerConnection { peer: u32, self_id: u32, initiator: bool },
    ApplyOffer(u32, Seq<char>),
    ApplyAnswer(u32, Seq<char>),
    AddIceCandidate(u32, Seq<char>),
    WatchDataChannel { peer: u32, watch_ice: bool },
}

pub open spec fn opt_lobby_view(o: Option<Lobby>) -> Option<LobbyView> {
    match o {
        Some(l) => Some(l@),
        None => None,
    }
}

impl View for AgentOutput {
    type V = OutputView;

    open spec fn view(&self) -> OutputView {
        match self {
            AgentOutput::SocketOutput(SocketOutputs::Connected) => OutputView::SocketConnected,
            AgentOutput::SocketOutput(SocketOutputs::ErrorConnecting) => OutputView::SocketErrorConnecting,
            AgentOutput::SocketOutput(SocketOutputs::Disconnected) => OutputView::SocketDisconnected,
            AgentOutput::SocketOutput(SocketOutputs::SocketMessage(t)) => OutputView::SocketMessage(t@),
            AgentOutput::LobbyOutput(LobbyOutputs::Connected(l)) => OutputView::LobbyConnected(l@),
            AgentOutput::LobbyOutput(LobbyOutputs::PeerMessage(id, t, l)) => OutputView::PeerMessage(
                *id,
                t@,
                l@,
            ),
            AgentOutput::LobbyOutput(LobbyOutputs::PeerBinaryMessage(id, b)) => OutputView::PeerBinaryMessage(*id, b@),
            AgentOutput::LobbyOutput(LobbyOutputs::LobbyRefresh(l)) => OutputView::LobbyRefresh(l@),
            AgentOutput::LobbyOutput(LobbyOutputs::RequestResult(l)) => OutputView::RequestResult(
                opt_lobby_view(*l),
            ),
            AgentOutput::LobbyOutput(LobbyOutputs::TurnChaned(a, b)) => OutputView::TurnChanged(*a, *b),
            AgentOutput::LobbyOutput(LobbyOutputs::WordChanged(w)) => OutputView::WordChanged(w@),
            AgentOutput::LobbyOutput(LobbyOutputs::Sealed) => OutputView::Sealed,
        }
    }
}

impl View for AgentAction {
    type V = ActionView;

    open spec fn view(&self) -> ActionView {
        match self {
            AgentAction::Broadcast(o) => ActionView::Broadcast(o@),
            AgentAction::Respond(h, o) => ActionView::Respond(*h, o@),
            AgentAction::SendSocket(s) => ActionView::SendSocket(s@),
            AgentAction::SendPeer(id, s) => ActionView::SendPeer(*id, s@),
            AgentAction::SendPeerBinary(id, b) => ActionView::SendPeerBinary(*id, b@),
            AgentAction::OpenSocket(u) => ActionView::OpenSocket(u@),
            AgentAction::QueuePeerConnect(id) => ActionView::QueuePeerConnect(*id),
            AgentAction::CreatePeerConnection { peer, self_id, initiator } => ActionView::CreatePeerConnection {
                peer: *peer,
                self_id: *self_id,
                initiator: *initiator,
            },
            AgentAction::ApplyOffer(id, s) => ActionView::ApplyOffer(*id, s@),
            AgentAction::ApplyAnswer(id, s) => ActionView::ApplyAnswer(*id, s@),
            AgentAction::AddIceCandidate(id, s) => ActionView::AddIceCandidate(*id, s@),
            AgentAction::WatchDataChannel { peer, watch_ice } => ActionView::WatchDataChannel {
                peer: *peer,
                watch_ice: *watch_ice,
            },
        }
    }
}

pub open spec fn actions_view(v: Seq<AgentAction>) -> Seq<ActionView> {
    v.map_values(|a: AgentAction| a@)
}

/// The agent's own state; the socket, the peer connections and the handler
/// ids of the subscribers stay with the application.
pub struct SocketAgent {
    pub subscribers: Vec<u64>,
    pub socket_open: bool,
    pub lobby: Option<Lobby>,
    pub name: Option<String>,
}

pub ghost struct AgentView {
    pub subscribers: Seq<u64>,
    pub socket_open: bool,
    pub lobby: Option<LobbyView>,
    pub name: Option<Seq<char>>,
}

impl View for SocketAgent {
    type V = AgentView;

    open spec fn view(&self) -> AgentView {
        AgentView {
            subscribers: self.subscribers@,
            socket_open: self.socket_open,
            lobby: opt_lobby_view(self.lobby),
            name: wire::opt_string_view(self.name),
        }
    }
}

impl AgentView {
    /// The lobby, when there is one, files every peer under its own id.
    pub open spec fn inv(self) -> bool {
        self.lobby matches Some(l) ==> l.wf()
    }

    pub open spec fn with_lobby(self, l: Option<LobbyView>) -> AgentView {
        AgentView { lobby: l, ..self }
    }
}

/// The position of the first `x` in `s`.
pub open spec fn first_index(s: Seq<u64>, x: u64) -> int {
    choose|i: int| 0 <= i < s.len() && s[i] == x && forall|j: int| 0 <= j < i ==> s[j] != x
}

/// `s` without its first `x`, or `s` when it holds none.
pub open spec fn without_first(s: Seq<u64>, x: u64) -> Seq<u64> {
    if s.contains(x) {
        s.remove(first_index(s, x))
    } else {
        s
    }
}

/// Drops the first `x` of `v`, if it holds one.
pub fn remove_first(v: &mut Vec<u64>, x: u64)
    ensures
        final(v)@ == without_first(old(v)@, x),
{
    let mut i: usize = 0;
    while i < v.len()
        invariant
            i <= v.len(),
            v@ == old(v)@,
            forall|j: int| 0 <= j < i ==> v@[j] != x,
        decreases v.len() - i,
    {
        if v[i] == x {
            proof {
                let s = v@;
                let k = first_index(s, x);
                assert(0 <= i < s.len() && s[i as int] == x && forall|j: int| 0 <= j < i ==> s[j] != x);
                assert(k == i) by {
                    if k < i {
                        assert(s[k] != x);
                    }
                    if k > i {
                        assert(s[i as int] == x);
                    }
                }
            }
            v.remove(i);
            return;
        }
        i = i + 1;
    }
}

/// Hands a copy of the lobby to every subscriber.
pub open spec fn refresh(l: LobbyView) -> ActionView {
    ActionView::Broadcast(OutputView::LobbyRefresh(l))
}

/// The peers that a message to everybody reaches: every other peer that has
/// a data channel.
pub open spec fn fanout_targets(l: LobbyView) -> Set<u32> {
    Set::new(|k: u32| l.peers.contains_key(k) && k != l.selfid && l.peers[k].has_channel)
}

/// `acts` sends `text` once to each peer of `targets`, in some order.
pub open spec fn is_fanout(acts: Seq<ActionView>, targets: Set<u32>, text: Seq<char>) -> bool {
    &&& forall|i: int| 0 <= i < acts.len() ==> (#[trigger] acts[i]) is SendPeer && acts[i]->SendPeer_1 == text
    &&& forall|i: int, j: int|
        0 <= i < acts.len() && 0 <= j < acts.len() && i != j ==> (#[trigger] acts[i])->SendPeer_0
            != (#[trigger] acts[j])->SendPeer_0
    &&& forall|k: u32| #[trigger] targets.contains(k) <==> exists|i: int|
        0 <= i < acts.len() && (#[trigger] acts[i])->SendPeer_0 == k
}

/// `acts` sends `bytes` once to each peer of `targets`, in some order.
pub open spec fn is_binary_fanout(acts: Seq<ActionView>, targets: Set<u32>, bytes: Seq<u8>) -> bool {
    &&& forall|i: int|
        0 <= i < acts.len() ==> (#[trigger] acts[i]) is SendPeerBinary && acts[i]->SendPeerBinary_1
            == bytes
    &&& forall|i: int, j: int|
        0 <= i < acts.len() && 0 <= j < acts.len() && i != j ==> (#[trigger] acts[i])->SendPeerBinary_0
            != (#[trigger] acts[j])->SendPeerBinary_0
    &&& forall|k: u32| #[trigger] targets.contains(k) <==> exists|i: int|
        0 <= i < acts.len() && (#[trigger] acts[i])->SendPeerBinary_0 == k
}

/// What sending a message to one peer does.
pub open spec fn send_peer_spec(s: AgentView, id: u32, text: Seq<char>) -> Seq<ActionView> {
    match s.lobby {
        Some(l) => if l.peers.contains_key(id) && l.peers[id].has_channel {
            seq![ActionView::SendPeer(id, text)]
        } else {
            Seq::empty()
        },
        None => Seq::empty(),
    }
}

/// What sending a message to the server does.
pub open spec fn send_socket_spec(s: AgentView, text: Seq<char>) -> Seq<ActionView> {
    if s.socket_open {
        seq![ActionView::SendSocket(text)]
    } else {
        Seq::empty()
    }
}

/// Whether a chat message is the right guess: a command that starts with
/// `C` whose payload matches the lobby's word, ASCII case aside.
pub open spec fn is_right_word(s: AgentView, m: TransferView) -> bool {
    &&& s.lobby is Some
    &&& text::has_prefix(m.command, seq!['C'])
    &&& text::eq_ignore_ascii_case_spec(wire::or_empty(m.data), s.lobby->Some_0.word)
}

/// The state after the right-word check on a message from `id`.
pub open spec fn check_word_state(s: AgentView, id: u32, m: TransferView) -> AgentView {
    if is_right_word(s, m) && s.lobby->Some_0.peers.contains_key(id) {
        let l = s.lobby->Some_0;
        s.with_lobby(Some(l.with_peers(l.peers.insert(id, PeerView { guessed: true, ..l.peers[id] }))))
    } else {
        s
    }
}

/// The actions of the right-word check on a message from `id`.
pub open spec fn check_word_actions(s: AgentView, id: u32, m: TransferView) -> Seq<ActionView> {
    if is_right_word(s, m) && s.lobby->Some_0.peers.contains_key(id) {
        seq![refresh(check_word_state(s, id, m).lobby->Some_0)]
    } else {
        Seq::empty()
    }
}


/// The peers that a message to everybody reaches, among the first `i` ids.
pub open spec fn fanout_upto(l: LobbyView, ids: Seq<u32>, i: int) -> Set<u32> {
    Set::new(|k: u32| ids.take(i).contains(k) && fanout_targets(l).contains(k))
}

/// A message with a command and no id or payload, as `TransferData`.
pub open spec fn bare_message(cmd: Seq<char>) -> TransferView {
    TransferView { command: cmd, id: None, data: None }
}

/// The lobby once sealed: only the ready peers stay.
pub open spec fn sealed_lobby(l: LobbyView) -> LobbyView {
    LobbyView { sealed: true, peers: lobby::ready_only(l.peers), ..l }
}

/// The lobby once the turn passes to `turn`: no word, nobody has guessed.
pub open spec fn turned_lobby(l: LobbyView, turn: u32) -> LobbyView {
    LobbyView { turn, word: Seq::empty(), peers: lobby::none_guessed(l.peers), ..l }
}

/// The lobby once the word is `word`: nobody has guessed.
pub open spec fn worded_lobby(l: LobbyView, word: Seq<char>) -> LobbyView {
    LobbyView { word, peers: lobby::none_guessed(l.peers), ..l }
}

pub open spec fn self_id_or_zero(s: AgentView) -> u32 {
    match s.lobby {
        Some(l) => l.selfid,
        None => 0,
    }
}

/// The state after a message to every peer: the right-word check with this
/// client as the sender.
pub open spec fn broadcast_state(s: AgentView, m: TransferView) -> AgentView {
    check_word_state(s, self_id_or_zero(s), m)
}

/// `acts` is what a message to every peer does from `s`: the right-word
/// check's actions, then the message once to each peer that it reaches.
pub open spec fn is_broadcast(s: AgentView, m: TransferView, acts: Seq<ActionView>) -> bool {
    let pre = check_word_actions(s, self_id_or_zero(s), m);
    &&& pre.len() <= acts.len()
    &&& acts.subrange(0, pre.len() as int) == pre
    &&& match broadcast_state(s, m).lobby {
        Some(l) => is_fanout(
            acts.subrange(pre.len() as int, acts.len() as int),
            fanout_targets(l),
            wire::frame_spec(m),
        ),
        None => acts.len() == pre.len(),
    }
}

/// What handing a message to every peer does when the message is no chat:
/// `acts` is the message once to each peer that it reaches.
pub open spec fn is_plain_broadcast(s: AgentView, m: TransferView, acts: Seq<ActionView>) -> bool {
    match s.lobby {
        Some(l) => is_fanout(acts, fanout_targets(l), wire::frame_spec(m)),
        None => acts.len() == 0,
    }
}

/// `acts` starts with `head`, ends with `tail`, and hands `m` to every peer
/// in between.
pub open spec fn framed_by(
    s: AgentView,
    head: Seq<ActionView>,
    m: TransferView,
    tail: Seq<ActionView>,
    acts: Seq<ActionView>,
) -> bool {
    &&& head.len() + tail.len() <= acts.len()
    &&& acts.subrange(0, head.len() as int) == head
    &&& acts.subrange(acts.len() - tail.len(), acts.len() as int) == tail
    &&& is_plain_broadcast(s, m, acts.subrange(head.len() as int, acts.len() - tail.len()))
}

/// The message that seals the lobby.
pub open spec fn seal_message() -> TransferView {
    bare_message(seq!['S'])
}

/// The message that passes the turn to `turn`.
pub open spec fn turn_message(turn: u32) -> TransferView {
    TransferView { command: seq!['T'], id: Some(text::decimal(turn as nat)), data: None }
}

/// The message that sets the word.
pub open spec fn word_message(word: Seq<char>) -> TransferView {
    TransferView { command: seq!['W'], id: None, data: Some(word) }
}

/// The lobby with the peer `id` named `name` and ready, when it has that peer.
pub open spec fn named_lobby(l: LobbyView, id: u32, name: Seq<char>) -> LobbyView {
    if l.peers.contains_key(id) {
        l.with_peers(l.peers.insert(id, PeerView { name, is_ready: true, ..l.peers[id] }))
    } else {
        l
    }
}

/// The state after the command part of a message from the peer `id`.
pub open spec fn peer_cmd_state(s: AgentView, id: u32, m: TransferView) -> AgentView {
    if text::has_prefix(m.command, seq!['N']) {
        match (s.lobby, m.id) {
            (Some(l), Some(n)) => s.with_lobby(Some(named_lobby(l, id, n))),
            _ => s,
        }
    } else if text::has_prefix(m.command, seq!['S']) {
        match s.lobby {
            Some(l) => s.with_lobby(Some(LobbyView { sealed: true, ..l })),
            None => s,
        }
    } else if text::has_prefix(m.command, seq!['T']) {
        match (s.lobby, text::parse_u32_spec(wire::or_empty(m.id))) {
            (Some(l), Some(t)) => s.with_lobby(Some(turned_lobby(l, t))),
            _ => s,
        }
    } else if text::has_prefix(m.command, seq!['W']) {
        match (s.lobby, m.data) {
            (Some(l), Some(w)) => s.with_lobby(Some(worded_lobby(l, w))),
            _ => s,
        }
    } else {
        s
    }
}

/// The actions of the command part of a message from the peer `id`.
pub open spec fn peer_cmd_actions(s: AgentView, id: u32, m: TransferView) -> Seq<ActionView> {
    let s1 = peer_cmd_state(s, id, m);
    if text::has_prefix(m.command, seq!['N']) {
        match s1.lobby {
            Some(l) => seq![refresh(l)],
            None => Seq::empty(),
        }
    } else if text::has_prefix(m.command, seq!['S']) {
        seq![ActionView::Broadcast(OutputView::Sealed)] + match s1.lobby {
            Some(l) => seq![refresh(l)],
            None => Seq::<ActionView>::empty(),
        }
    } else if text::has_prefix(m.command, seq!['T']) {
        match (s.lobby, text::parse_u32_spec(wire::or_empty(m.id))) {
            (Some(l), Some(t)) => seq![
                ActionView::Broadcast(OutputView::TurnChanged(t, t)),
                refresh(turned_lobby(l, t)),
            ],
            _ => Seq::empty(),
        }
    } else if text::has_prefix(m.command, seq!['W']) {
        match (s.lobby, m.data) {
            (Some(l), Some(w)) => seq![
                ActionView::Broadcast(OutputView::WordChanged(w)),
                refresh(worded_lobby(l, w)),
            ],
            _ => Seq::empty(),
        }
    } else {
        Seq::empty()
    }
}

/// The state after a message from the peer `id`.
pub open spec fn peer_msg_state(s: AgentView, id: u32, m: TransferView) -> AgentView {
    check_word_state(peer_cmd_state(s, id, m), id, m)
}

/// The actions of a message from the peer `id`: those of its command, of
/// the right-word check, and the message handed to every subscriber.
pub open spec fn peer_msg_actions(s: AgentView, id: u32, m: TransferView) -> Seq<ActionView> {
    let s1 = peer_cmd_state(s, id, m);
    peer_cmd_actions(s, id, m) + check_word_actions(s1, id, m) + match peer_msg_state(s, id, m).lobby {
        Some(l) => seq![ActionView::Broadcast(OutputView::PeerMessage(id, m, l))],
        None => Seq::<ActionView>::empty(),
    }
}

pub open spec fn init_cmd() -> Seq<char> {
    seq!['I', ':', ' ']
}

pub open spec fn join_cmd() -> Seq<char> {
    seq!['J', ':', ' ']
}

pub open spec fn new_peer_cmd() -> Seq<char> {
    seq!['N', ':', ' ']
}

pub open spec fn offer_cmd() -> Seq<char> {
    seq!['O', ':', ' ']
}

pub open spec fn answer_cmd() -> Seq<char> {
    seq!['A', ':', ' ']
}

pub open spec fn candidate_cmd() -> Seq<char> {
    seq!['C', ':', ' ']
}

pub open spec fn seal_cmd() -> Seq<char> {
    seq!['S', ':', ' ']
}

/// The state after a message from the server.
pub open spec fn socket_msg_state(s: AgentView, m: TransferView) -> AgentView {
    if text::has_prefix(m.command, init_cmd()) {
        match text::parse_u32_spec(text::trim_spec(wire::or_empty(m.id))) {
            Some(sid) => {
                let me = lobby::self_peer_view(sid, wire::or_empty(s.name));
                match s.lobby {
                    Some(l) => s.with_lobby(
                        Some(LobbyView { selfid: sid, peers: l.peers.insert(sid, me), ..l }),
                    ),
                    None => s.with_lobby(
                        Some(
                            LobbyView {
                                selfid: sid,
                                peers: map![sid => me],
                                roomid: Seq::empty(),
                                sealed: false,
                                turn: 0,
                                word: Seq::empty(),
                            },
                        ),
                    ),
                }
            },
            None => s,
        }
    } else if text::has_prefix(m.command, join_cmd()) {
        match (s.lobby, m.id) {
            (Some(l), Some(r)) => s.with_lobby(Some(LobbyView { roomid: r, ..l })),
            (None, Some(r)) => s.with_lobby(
                Some(
                    LobbyView {
                        selfid: 0,
                        peers: Map::empty(),
                        roomid: r,
                        sealed: false,
                        turn: 0,
                        word: Seq::empty(),
                    },
                ),
            ),
            _ => s,
        }
    } else if text::has_prefix(m.command, new_peer_cmd()) {
        match (s.lobby, text::parse_u32_spec(wire::or_empty(m.id))) {
            (Some(l), Some(p)) => s.with_lobby(
                Some(l.with_peers(l.peers.insert(p, lobby::new_peer_view(p)))),
            ),
            _ => s,
        }
    } else if text::has_prefix(m.command, offer_cmd()) || text::has_prefix(m.command, answer_cmd())
        || text::has_prefix(m.command, candidate_cmd()) {
        s
    } else if text::has_prefix(m.command, seal_cmd()) {
        match s.lobby {
            Some(l) => s.with_lobby(Some(LobbyView { sealed: true, ..l })),
            None => s,
        }
    } else {
        s
    }
}

/// The peer that a relayed offer, answer or candidate is for, with its
/// payload: when the lobby has that peer and the peer has a connection.
pub open spec fn relay_target(s: AgentView, m: TransferView) -> Option<(u32, Seq<char>)> {
    match (s.lobby, m.data, text::parse_u32_spec(wire::or_empty(m.id))) {
        (Some(l), Some(d), Some(p)) => if l.peers.contains_key(p) && l.peers[p].connected {
            Some((p, d))
        } else {
            None
        },
        _ => None,
    }
}

/// The actions of a message from the server.
pub open spec fn socket_msg_actions(s: AgentView, m: TransferView) -> Seq<ActionView> {
    let s1 = socket_msg_state(s, m);
    if text::has_prefix(m.command, init_cmd()) || text::has_prefix(m.command, join_cmd()) {
        match (s.lobby, s1.lobby) {
            (Some(_), Some(l)) => seq![ActionView::Broadcast(OutputView::LobbyConnected(l))],
            _ => Seq::empty(),
        }
    } else if text::has_prefix(m.command, new_peer_cmd()) {
        match (s.lobby, text::parse_u32_spec(wire::or_empty(m.id))) {
            (Some(_), Some(p)) => seq![ActionView::QueuePeerConnect(p)],
            _ => Seq::empty(),
        }
    } else if text::has_prefix(m.command, offer_cmd()) {
        match relay_target(s, m) {
            Some((p, d)) => seq![ActionView::ApplyOffer(p, d)],
            None => Seq::empty(),
        }
    } else if text::has_prefix(m.command, answer_cmd()) {
        match relay_target(s, m) {
            Some((p, d)) => seq![ActionView::ApplyAnswer(p, d)],
            None => Seq::empty(),
        }
    } else if text::has_prefix(m.command, candidate_cmd()) {
        match relay_target(s, m) {
            Some((p, d)) => seq![ActionView::AddIceCandidate(p, d)],
            None => Seq::empty(),
        }
    } else if text::has_prefix(m.command, seal_cmd()) {
        seq![ActionView::Broadcast(OutputView::Sealed)] + match s1.lobby {
            Some(l) => seq![refresh(l)],
            None => Seq::<ActionView>::empty(),
        }
    } else {
        Seq::empty()
    }
}

/// What sealing does from `s`: the lobby keeps only its ready peers and is
/// sealed; the subscribers, then every peer, then the server are told.
pub open spec fn seal_result(s: AgentView, s2: AgentView, acts: Seq<ActionView>) -> bool {
    match s.lobby {
        None => s2 == s && acts.len() == 0,
        Some(l) => {
            let s1 = s.with_lobby(Some(sealed_lobby(l)));
            &&& s2 == s1
            &&& framed_by(
                s1,
                seq![ActionView::Broadcast(OutputView::Sealed), refresh(sealed_lobby(l))],
                seal_message(),
                send_socket_spec(s1, wire::frame_spec(seal_message())),
                acts,
            )
        },
    }
}

/// What passing the turn to `turn` does from `s`; the peers are told when
/// `send`.
pub open spec fn turn_result(s: AgentView, turn: u32, send: bool, s2: AgentView, acts: Seq<ActionView>) -> bool {
    match s.lobby {
        None => s2 == s && acts.len() == 0,
        Some(l) => {
            let s1 = s.with_lobby(Some(turned_lobby(l, turn)));
            let head = seq![
                ActionView::Broadcast(OutputView::TurnChanged(turn, turn)),
                refresh(turned_lobby(l, turn)),
            ];
            &&& s2 == s1
            &&& if send {
                framed_by(s1, head, turn_message(turn), Seq::empty(), acts)
            } else {
                acts == head
            }
        },
    }
}

/// What setting the word does from `s`; the peers are told when `send`.
pub open spec fn word_result(s: AgentView, word: Seq<char>, send: bool, s2: AgentView, acts: Seq<ActionView>) -> bool {
    match s.lobby {
        None => s2 == s && acts.len() == 0,
        Some(l) => {
            let s1 = s.with_lobby(Some(worded_lobby(l, word)));
            let head = seq![
                ActionView::Broadcast(OutputView::WordChanged(word)),
                refresh(worded_lobby(l, word)),
            ];
            &&& s2 == s1
            &&& if send {
                framed_by(s1, head, word_message(word), Seq::empty(), acts)
            } else {
                acts == head
            }
        },
    }
}

/// The message that tells a peer this client's name.
pub open spec fn name_message(s: AgentView) -> TransferView {
    TransferView { command: seq!['N'], id: s.name, data: None }
}

/// The lobby with the peer `id` marked as having a data channel.
pub open spec fn with_channel(l: LobbyView, id: u32) -> LobbyView {
    l.with_peers(l.peers.insert(id, PeerView { has_channel: true, ..l.peers[id] }))
}

/// The state after an event.
pub open spec fn update_state(s: AgentView, msg: Msg) -> AgentView {
    match msg {
        Msg::Connected(_) => AgentView { socket_open: true, ..s },
        Msg::Disconnected => AgentView { socket_open: false, ..s },
        Msg::SocketMessage(t) => socket_msg_state(s, t@),
        Msg::PeerDataChannel(id) => match s.lobby {
            Some(l) => if l.peers.contains_key(id) {
                s.with_lobby(Some(with_channel(l, id)))
            } else {
                s
            },
            None => s,
        },
        Msg::PeerDataChannelMessage(id, t) => peer_msg_state(s, id, t@),
        Msg::PeerDisconnect(id) => match s.lobby {
            Some(l) => s.with_lobby(Some(l.with_peers(l.peers.remove(id)))),
            None => s,
        },
        _ => s,
    }
}

/// The actions of an event.
pub open spec fn update_actions(s: AgentView, msg: Msg) -> Seq<ActionView> {
    match msg {
        Msg::Connected(_) => seq![ActionView::Broadcast(OutputView::SocketConnected)],
        Msg::Disconnected => seq![ActionView::Broadcast(OutputView::SocketDisconnected)],
        Msg::SocketMessage(t) => socket_msg_actions(s, t@) + seq![
            ActionView::Broadcast(OutputView::SocketMessage(t@)),
        ],
        Msg::PeerConnect(id) => match s.lobby {
            Some(l) => seq![
                ActionView::CreatePeerConnection {
                    peer: id,
                    self_id: l.selfid,
                    initiator: id > l.selfid,
                },
            ],
            None => Seq::empty(),
        },
        Msg::PeerDataChannel(id) => match s.lobby {
            Some(l) => if l.peers.contains_key(id) {
                seq![ActionView::WatchDataChannel { peer: id, watch_ice: l.peers[id].connected }]
            } else {
                Seq::empty()
            },
            None => Seq::empty(),
        },
        Msg::PeerDataChannelOpened(id) => send_peer_spec(s, id, wire::frame_spec(name_message(s))),
        Msg::PeerDataChannelMessage(id, t) => peer_msg_actions(s, id, t@),
        Msg::PeerDataChannelBinaryMessage(id, b) => seq![
            ActionView::Broadcast(OutputView::PeerBinaryMessage(id, b@)),
        ],
        Msg::PeerDisconnect(id) => match update_state(s, msg).lobby {
            Some(l) => seq![refresh(l)],
            None => Seq::empty(),
        },
        Msg::SendSocketMessage(t) => send_socket_spec(s, wire::frame_spec(t@)),
        Msg::Ignore => Seq::empty(),
    }
}

/// The events that the agent can take in `s`: a peer connection is made
/// only to a peer of the lobby.
pub open spec fn update_allowed(s: AgentView, msg: Msg) -> bool {
    match msg {
        Msg::PeerConnect(id) => match s.lobby {
            Some(l) => l.peers.contains_key(id),
            None => true,
        },
        _ => true,
    }
}

impl SocketAgent {
    /// A fresh agent, with no subscriber, socket or lobby (`create`).
    pub fn create() -> (r: SocketAgent)
        ensures
            r@ == (AgentView {
                subscribers: Seq::empty(),
                socket_open: false,
                lobby: None,
                name: None,
            }),
    {
        let r = SocketAgent { subscribers: Vec::new(), socket_open: false, lobby: None, name: None };
        assert(r@.subscribers =~= Seq::<u64>::empty());
        r
    }

    /// A component subscribes.
    pub fn connected(&mut self, id: u64)
        ensures
            final(self)@ == (AgentView { subscribers: old(self)@.subscribers.push(id), ..old(self)@ }),
    {
        self.subscribers.push(id);
    }

    /// A component leaves: its first subscription is dropped.
    pub fn disconnected(&mut self, id: u64)
        ensures
            final(self)@ == (AgentView {
                subscribers: if old(self)@.subscribers.contains(id) {
                    old(self)@.subscribers.remove(first_index(old(self)@.subscribers, id))
                } else {
                    old(self)@.subscribers
                },
                ..old(self)@
            }),
    {
        remove_first(&mut self.subscribers, id);
    }

    /// Sends a message to the server, when the socket is open
    /// (`send_socket_message`).
    pub fn send_socket_message(&self, data: &TransferData) -> (acts: Vec<AgentAction>)
        ensures
            actions_view(acts@) == send_socket_spec(self@, wire::frame_spec(data@)),
    {
        let mut acts: Vec<AgentAction> = Vec::new();
        if self.socket_open {
            acts.push(AgentAction::SendSocket(frame_transfer(data)));
        }
        assert(actions_view(acts@) =~= send_socket_spec(self@, wire::frame_spec(data@)));
        acts
    }

    /// Sends a message over the data channel of one peer, when the lobby has
    /// that peer and the peer has a channel (`send_peer_msg`).
    pub fn send_peer_msg(&self, id: u32, data: &TransferData) -> (acts: Vec<AgentAction>)
        ensures
            actions_view(acts@) == send_peer_spec(self@, id, wire::frame_spec(data@)),
    {
        let mut acts: Vec<AgentAction> = Vec::new();
        match &self.lobby {
            Some(lobby) => {
                match lobby.peers.get(&id) {
                    Some(peer) => {
                        if peer.has_channel {
                            acts.push(AgentAction::SendPeer(id, frame_transfer(data)));
                        }
                    },
                    None => {},
                }
            },
            None => {},
        }
        assert(actions_view(acts@) =~= send_peer_spec(self@, id, wire::frame_spec(data@)));
        acts
    }

    /// Bytes to one peer (`send_peer_binary`).
    pub fn send_peer_binary(&self, id: u32, data: &Vec<u8>) -> (acts: Vec<AgentAction>)
        ensures
            actions_view(acts@) == (match self@.lobby {
                Some(l) => if l.peers.contains_key(id) && l.peers[id].has_channel {
                    seq![ActionView::SendPeerBinary(id, data@)]
                } else {
                    Seq::empty()
                },
                None => Seq::empty(),
            }),
    {
        let mut acts: Vec<AgentAction> = Vec::new();
        match &self.lobby {
            Some(lobby) => {
                match lobby.peers.get(&id) {
                    Some(peer) => {
                        if peer.has_channel {
                            acts.push(AgentAction::SendPeerBinary(id, data.clone()));
                        }
                    },
                    None => {},
                }
            },
            None => {},
        }
        assert(actions_view(acts@) =~= (match self@.lobby {
            Some(l) => if l.peers.contains_key(id) && l.peers[id].has_channel {
                seq![ActionView::SendPeerBinary(id, data@)]
            } else {
                Seq::empty()
            },
            None => Seq::empty(),
        }));
        acts
    }

    /// Marks the sender of the right guess as having guessed, and tells the
    /// subscribers (`check_right_word`).
    pub fn check_right_word(&mut self, id: u32, msg: &TransferData) -> (r: (bool, Vec<AgentAction>))
        requires
            old(self)@.inv(),
        ensures
            r.0 == is_right_word(old(self)@, msg@),
            final(self)@ == check_word_state(old(self)@, id, msg@),
            actions_view(r.1@) == check_word_actions(old(self)@, id, msg@),
            final(self)@.inv(),
    {
        let mut acts: Vec<AgentAction> = Vec::new();
        let is_chat = starts_with(msg.command.as_str(), "C");
        proof {
            reveal_strlit("C");
            assert("C"@ =~= seq!['C']);
        }
        match &mut self.lobby {
            Some(lobby) => {
                let guess = match &msg.data {
                    Some(d) => eq_ignore_ascii_case(d.as_str(), lobby.word.as_str()),
                    None => eq_ignore_ascii_case("", lobby.word.as_str()),
                };
                proof {
                    reveal_strlit("");
                    assert(""@ =~= Seq::<char>::empty());
                }
                if is_chat && guess {
                    if lobby.mark_guessed(id) {
                        let lc = lobby.snapshot();
                        acts.push(AgentAction::Broadcast(AgentOutput::LobbyOutput(LobbyOutputs::LobbyRefresh(lc))));
                    }
                    assert(actions_view(acts@) =~= check_word_actions(old(self)@, id, msg@));
                    (true, acts)
                } else {
                    assert(actions_view(acts@) =~= check_word_actions(old(self)@, id, msg@));
                    (false, acts)
                }
            },
            None => {
                assert(actions_view(acts@) =~= check_word_actions(old(self)@, id, msg@));
                (false, acts)
            },
        }
    }

    /// The message once to every other peer that has a data channel.
    fn fanout(&self, msg: &TransferData) -> (acts: Vec<AgentAction>)
        requires
            self@.lobby is Some,
        ensures
            is_fanout(actions_view(acts@), fanout_targets(self@.lobby->Some_0), wire::frame_spec(msg@)),
    {
        let lobby = self.lobby.as_ref().unwrap();
        let ghost l = lobby@;
        let ghost text = wire::frame_spec(msg@);
        let ids = lobby.peer_ids();
        let mut acts: Vec<AgentAction> = Vec::new();
        let mut i: usize = 0;
        while i < ids.len()
            invariant
                0 <= i <= ids.len(),
                self@.lobby == Some(l),
                lobby@ == l,
                text == wire::frame_spec(msg@),
                ids@.no_duplicates(),
                forall|k: u32| #[trigger] ids@.contains(k) <==> l.peers.contains_key(k),
                is_fanout(actions_view(acts@), fanout_upto(l, ids@, i as int), text),
            decreases ids.len() - i,
        {
            let k = ids[i];
            let ghost before = actions_view(acts@);
            assert(ids@.take(i + 1) =~= ids@.take(i as int).push(k));
            if k != lobby.selfid {
                let mut a = self.send_peer_msg(k, msg);
                let ghost av = actions_view(a@);
                let ghost aa = a@;
                let ghost prev = acts@;
                acts.append(&mut a);
                assert(acts@ =~= prev + aa);
                assert(actions_view(acts@) =~= before + av);
            }
            proof {
                let after = actions_view(acts@);
                let s0 = fanout_upto(l, ids@, i as int);
                let s1 = fanout_upto(l, ids@, i + 1);
                assert(!s0.contains(k)) by {
                    if ids@.take(i as int).contains(k) {
                        let m = ids@.take(i as int).index_of(k);
                        assert(ids@[m] == ids@[i as int]);
                    }
                }
                assert forall|x: u32| s1.contains(x) <==> (s0.contains(x) || (x == k && fanout_targets(l).contains(k))) by {
                    if ids@.take(i + 1).contains(x) && x != k {
                        let m = ids@.take(i + 1).index_of(x);
                        assert(ids@.take(i as int)[m] == x);
                    }
                    if ids@.take(i as int).contains(x) {
                        let m = ids@.take(i as int).index_of(x);
                        assert(ids@.take(i + 1)[m] == x);
                    }
                    if x == k {
                        assert(ids@.take(i + 1)[i as int] == k);
                    }
                }
                assert(ids@.contains(k));
                if fanout_targets(l).contains(k) {
                    assert(after =~= before.push(ActionView::SendPeer(k, text)));
                    assert forall|x: u32| #[trigger] s1.contains(x) <==> exists|j: int|
                        0 <= j < after.len() && (#[trigger] after[j])->SendPeer_0 == x by {
                        if s1.contains(x) {
                            if x == k {
                                assert(after[before.len() as int]->SendPeer_0 == x);
                            } else {
                                let j = choose|j: int| 0 <= j < before.len() && (#[trigger] before[j])->SendPeer_0 == x;
                                assert(after[j] == before[j]);
                            }
                        }
                        if exists|j: int| 0 <= j < after.len() && (#[trigger] after[j])->SendPeer_0 == x {
                            let j = choose|j: int| 0 <= j < after.len() && (#[trigger] after[j])->SendPeer_0 == x;
                            if j < before.len() {
                                assert(after[j] == before[j]);
                            }
                        }
                    }
                    assert forall|a: int, b: int|
                        0 <= a < after.len() && 0 <= b < after.len() && a != b implies (#[trigger] after[a])->SendPeer_0
                            != (#[trigger] after[b])->SendPeer_0 by {
                        if a < before.len() && b < before.len() {
                            assert(after[a] == before[a]);
                            assert(after[b] == before[b]);
                        } else if a < before.len() {
                            assert(after[a] == before[a]);
                            assert(s0.contains(before[a]->SendPeer_0));
                        } else if b < before.len() {
                            assert(after[b] == before[b]);
                            assert(s0.contains(before[b]->SendPeer_0));
                        }
                    }
                } else {
                    assert(after =~= before);
                    assert(s1 =~= s0);
                }
            }
            i = i + 1;
        }
        assert(ids@.take(ids@.len() as int) =~= ids@);
        assert(fanout_upto(l, ids@, ids@.len() as int) =~= fanout_targets(l));
        acts
    }

    /// A message to every other peer; a right guess of this client's own is
    /// recorded first (`peer_broadcast`).
    pub fn peer_broadcast(&mut self, msg: &TransferData) -> (acts: Vec<AgentAction>)
        requires
            old(self)@.inv(),
        ensures
            final(self)@ == broadcast_state(old(self)@, msg@),
            final(self)@.inv(),
            is_broadcast(old(self)@, msg@, actions_view(acts@)),
    {
        let id = match &self.lobby {
            Some(l) => l.selfid,
            None => 0,
        };
        let (_, mut acts) = self.check_right_word(id, msg);
        let ghost pre = actions_view(acts@);
        if self.lobby.is_some() {
            let mut fan = self.fanout(msg);
            let ghost fv = actions_view(fan@);
            acts.append(&mut fan);
            assert(actions_view(acts@).subrange(0, pre.len() as int) =~= pre);
            assert(actions_view(acts@).subrange(pre.len() as int, actions_view(acts@).len() as int) =~= fv);
        } else {
            assert(actions_view(acts@).subrange(0, pre.len() as int) =~= pre);
        }
        acts
    }

    /// The bytes once to every other peer that has a data channel.
    fn fanout_binary(&self, data: &Vec<u8>) -> (acts: Vec<AgentAction>)
        requires
            self@.lobby is Some,
        ensures
            is_binary_fanout(actions_view(acts@), fanout_targets(self@.lobby->Some_0), data@),
    {
        let lobby = self.lobby.as_ref().unwrap();
        let ghost l = lobby@;
        let ids = lobby.peer_ids();
        let mut acts: Vec<AgentAction> = Vec::new();
        let mut i: usize = 0;
        while i < ids.len()
            invariant
                0 <= i <= ids.len(),
                self@.lobby == Some(l),
                lobby@ == l,
                ids@.no_duplicates(),
                forall|k: u32| #[trigger] ids@.contains(k) <==> l.peers.contains_key(k),
                is_binary_fanout(actions_view(acts@), fanout_upto(l, ids@, i as int), data@),
            decreases ids.len() - i,
        {
            let k = ids[i];
            let ghost before = actions_view(acts@);
            assert(ids@.take(i + 1) =~= ids@.take(i as int).push(k));
            if k != lobby.selfid {
                let mut a = self.send_peer_binary(k, data);
                let ghost av = actions_view(a@);
                let ghost aa = a@;
                let ghost prev = acts@;
                acts.append(&mut a);
                assert(acts@ =~= prev + aa);
                assert(actions_view(acts@) =~= before + av);
            }
            proof {
                let after = actions_view(acts@);
                let s0 = fanout_upto(l, ids@, i as int);
                let s1 = fanout_upto(l, ids@, i + 1);
                assert(!s0.contains(k)) by {
                    if ids@.take(i as int).contains(k) {
                        let m = ids@.take(i as int).index_of(k);
                        assert(ids@[m] == ids@[i as int]);
                    }
                }
                assert forall|x: u32| s1.contains(x) <==> (s0.contains(x) || (x == k && fanout_targets(l).contains(k))) by {
                    if ids@.take(i + 1).contains(x) && x != k {
                        let m = ids@.take(i + 1).index_of(x);
                        assert(ids@.take(i as int)[m] == x);
                    }
                    if ids@.take(i as int).contains(x) {
                        let m = ids@.take(i as int).index_of(x);
                        assert(ids@.take(i + 1)[m] == x);
                    }
                    if x == k {
                        assert(ids@.take(i + 1)[i as int] == k);
                    }
                }
                assert(ids@.contains(k));
                if fanout_targets(l).contains(k) {
                    assert(after =~= before.push(ActionView::SendPeerBinary(k, data@)));
                    assert forall|x: u32| #[trigger] s1.contains(x) <==> exists|j: int|
                        0 <= j < after.len() && (#[trigger] after[j])->SendPeerBinary_0 == x by {
                        if s1.contains(x) {
                            if x == k {
                                assert(after[before.len() as int]->SendPeerBinary_0 == x);
                            } else {
                                let j = choose|j: int| 0 <= j < before.len() && (#[trigger] before[j])->SendPeerBinary_0 == x;
                                assert(after[j] == before[j]);
                            }
                        }
                        if exists|j: int| 0 <= j < after.len() && (#[trigger] after[j])->SendPeerBinary_0 == x {
                            let j = choose|j: int| 0 <= j < after.len() && (#[trigger] after[j])->SendPeerBinary_0 == x;
                            if j < before.len() {
                                assert(after[j] == before[j]);
                            }
                        }
                    }
                    assert forall|a: int, b: int|
                        0 <= a < after.len() && 0 <= b < after.len() && a != b implies (#[trigger] after[a])->SendPeerBinary_0
                            != (#[trigger] after[b])->SendPeerBinary_0 by {
                        if a < before.len() && b < before.len() {
                            assert(after[a] == before[a]);
                            assert(after[b] == before[b]);
                        } else if a < before.len() {
                            assert(after[a] == before[a]);
                            assert(s0.contains(before[a]->SendPeerBinary_0));
                        } else if b < before.len() {
                            assert(after[b] == before[b]);
                            assert(s0.contains(before[b]->SendPeerBinary_0));
                        }
                    }
                } else {
                    assert(after =~= before);
                    assert(s1 =~= s0);
                }
            }
            i = i + 1;
        }
        assert(ids@.take(ids@.len() as int) =~= ids@);
        assert(fanout_upto(l, ids@, ids@.len() as int) =~= fanout_targets(l));
        acts
    }

    /// Bytes to every other peer (`peer_broadcast_binary`).
    pub fn peer_broadcast_binary(&self, data: &Vec<u8>) -> (acts: Vec<AgentAction>)
        ensures
            match self@.lobby {
                Some(l) => is_binary_fanout(actions_view(acts@), fanout_targets(l), data@),
                None => acts@.len() == 0,
            },
    {
        if self.lobby.is_some() {
            self.fanout_binary(data)
        } else {
            Vec::new()
        }
    }

    /// A message with no chat in it to every other peer.
    fn plain_broadcast(&mut self, msg: &TransferData) -> (acts: Vec<AgentAction>)
        requires
            old(self)@.inv(),
            !text::has_prefix(msg@.command, seq!['C']),
        ensures
            final(self)@ == old(self)@,
            is_plain_broadcast(old(self)@, msg@, actions_view(acts@)),
    {
        let acts = self.peer_broadcast(msg);
        proof {
            let pre = check_word_actions(old(self)@, self_id_or_zero(old(self)@), msg@);
            assert(pre =~= Seq::<ActionView>::empty());
            assert(actions_view(acts@).subrange(0, actions_view(acts@).len() as int) =~= actions_view(acts@));
        }
        acts
    }

    /// Seals the lobby: only the ready peers stay, the subscribers, the peers
    /// and the server are told (`seal_lobby`).
    pub fn seal_lobby(&mut self) -> (acts: Vec<AgentAction>)
        requires
            old(self)@.inv(),
        ensures
            final(self)@.inv(),
            seal_result(old(self)@, final(self)@, actions_view(acts@)),
    {
        let mut acts: Vec<AgentAction> = Vec::new();
        match &mut self.lobby {
            Some(lobby) => {
                lobby.sealed = true;
                lobby.remove_non_ready();
                let lc = lobby.snapshot();
                acts.push(AgentAction::Broadcast(AgentOutput::LobbyOutput(LobbyOutputs::Sealed)));
                acts.push(AgentAction::Broadcast(AgentOutput::LobbyOutput(LobbyOutputs::LobbyRefresh(lc))));
            },
            None => {
                return acts;
            },
        }
        let ghost head = actions_view(acts@);
        proof {
            let l = old(self)@.lobby->Some_0;
            let l2 = self@.lobby->Some_0;
            assert(l2.peers =~= lobby::ready_only(l.peers));
            assert forall|k: u32| #[trigger] l2.peers.contains_key(k) implies l2.peers[k].id == k by {
                assert(l.peers.contains_key(k));
            }
        }
        let msg = TransferData { command: "S".to_owned(), id: None, data: None };
        proof {
            reveal_strlit("S");
            assert(msg@.command =~= seq!['S']);
            assert(msg@ == seal_message());
            assert(msg@.command.subrange(0, 1)[0] == 'S');
        }
        let mut fan = self.plain_broadcast(&msg);
        let ghost fv = actions_view(fan@);
        let mut tail = self.send_socket_message(&msg);
        let ghost tv = actions_view(tail@);
        acts.append(&mut fan);
        acts.append(&mut tail);
        proof {
            let all = actions_view(acts@);
            assert(all =~= head + fv + tv);
            assert(all.subrange(0, head.len() as int) =~= head);
            assert(all.subrange(all.len() - tv.len(), all.len() as int) =~= tv);
            assert(all.subrange(head.len() as int, all.len() - tv.len()) =~= fv);
            let l = old(self)@.lobby->Some_0;
            assert(self@.lobby->Some_0.peers =~= lobby::ready_only(l.peers));
            assert(self@.lobby == Some(sealed_lobby(l)));
            assert(head =~= seq![
                ActionView::Broadcast(OutputView::Sealed),
                refresh(sealed_lobby(l)),
            ]);
        }
        acts
    }

    /// Passes the turn to `turn`: the word is cleared and nobody has guessed;
    /// the peers are told when `send` (`change_turn`).
    pub fn change_turn(&mut self, turn: u32, send: bool) -> (acts: Vec<AgentAction>)
        requires
            old(self)@.inv(),
        ensures
            final(self)@.inv(),
            turn_result(old(self)@, turn, send, final(self)@, actions_view(acts@)),
    {
        let mut acts: Vec<AgentAction> = Vec::new();
        match &mut self.lobby {
            Some(lobby) => {
                lobby.turn = turn;
                lobby.word = String::new();
                lobby.reset_guessed();
                let lc = lobby.snapshot();
                acts.push(AgentAction::Broadcast(AgentOutput::LobbyOutput(LobbyOutputs::TurnChaned(turn, turn))));
                acts.push(AgentAction::Broadcast(AgentOutput::LobbyOutput(LobbyOutputs::LobbyRefresh(lc))));
            },
            None => {
                return acts;
            },
        }
        proof {
            let l = old(self)@.lobby->Some_0;
            assert(self@.lobby->Some_0.peers =~= turned_lobby(l, turn).peers);
            assert(self@.lobby->Some_0.word =~= turned_lobby(l, turn).word);
            assert(self@.lobby == Some(turned_lobby(l, turn)));
        }
        let ghost head = actions_view(acts@);
        proof {
            let l = old(self)@.lobby->Some_0;
            assert(head =~= seq![
                ActionView::Broadcast(OutputView::TurnChanged(turn, turn)),
                refresh(turned_lobby(l, turn)),
            ]);
        }
        if send {
            let msg = TransferData { command: "T".to_owned(), id: Some(u32_to_string(turn)), data: None };
            proof {
                reveal_strlit("T");
                assert(msg@.command =~= seq!['T']);
                assert(msg@ == turn_message(turn));
                assert(msg@.command.subrange(0, 1)[0] == 'T');
            }
            let mut fan = self.plain_broadcast(&msg);
            let ghost fv = actions_view(fan@);
            acts.append(&mut fan);
            proof {
                let all = actions_view(acts@);
                assert(all =~= head + fv);
                assert(all.subrange(0, head.len() as int) =~= head);
                assert(all.subrange(all.len() - 0, all.len() as int) =~= Seq::<ActionView>::empty());
                assert(all.subrange(head.len() as int, all.len() - 0) =~= fv);
            }
        } else {
            assert(actions_view(acts@) =~= head);
        }
        acts
    }

    /// Sets the word: nobody has guessed it yet; the peers are told when
    /// `send` (`change_word`).
    pub fn change_word(&mut self, word: String, send: bool) -> (acts: Vec<AgentAction>)
        requires
            old(self)@.inv(),
        ensures
            final(self)@.inv(),
            word_result(old(self)@, word@, send, final(self)@, actions_view(acts@)),
    {
        let mut acts: Vec<AgentAction> = Vec::new();
        match &mut self.lobby {
            Some(lobby) => {
                lobby.word = word.clone();
                lobby.reset_guessed();
                let lc = lobby.snapshot();
                acts.push(AgentAction::Broadcast(AgentOutput::LobbyOutput(LobbyOutputs::WordChanged(word.clone()))));
                acts.push(AgentAction::Broadcast(AgentOutput::LobbyOutput(LobbyOutputs::LobbyRefresh(lc))));
            },
            None => {
                return acts;
            },
        }
        proof {
            let l = old(self)@.lobby->Some_0;
            assert(self@.lobby->Some_0.peers =~= worded_lobby(l, word@).peers);
            assert(self@.lobby == Some(worded_lobby(l, word@)));
        }
        let ghost head = actions_view(acts@);
        proof {
            let l = old(self)@.lobby->Some_0;
            assert(head =~= seq![
                ActionView::Broadcast(OutputView::WordChanged(word@)),
                refresh(worded_lobby(l, word@)),
            ]);
        }
        if send {
            let msg = TransferData { command: "W".to_owned(), id: None, data: Some(word) };
            proof {
                reveal_strlit("W");
                assert(msg@.command =~= seq!['W']);
                assert(msg@ == word_message(word@));
                assert(msg@.command.subrange(0, 1)[0] == 'W');
            }
            let mut fan = self.plain_broadcast(&msg);
            let ghost fv = actions_view(fan@);
            acts.append(&mut fan);
            proof {
                let all = actions_view(acts@);
                assert(all =~= head + fv);
                assert(all.subrange(0, head.len() as int) =~= head);
                assert(all.subrange(all.len() - 0, all.len() as int) =~= Seq::<ActionView>::empty());
                assert(all.subrange(head.len() as int, all.len() - 0) =~= fv);
            }
        } else {
            assert(actions_view(acts@) =~= head);
        }
        acts
    }

    /// The command part of a message from the peer `id`.
    fn peer_command(&mut self, id: u32, msg: &TransferData) -> (acts: Vec<AgentAction>)
        requires
            old(self)@.inv(),
        ensures
            final(self)@ == peer_cmd_state(old(self)@, id, msg@),
            final(self)@.inv(),
            actions_view(acts@) == peer_cmd_actions(old(self)@, id, msg@),
    {
        let mut acts: Vec<AgentAction> = Vec::new();
        proof {
            reveal_strlit("N");
            reveal_strlit("S");
            reveal_strlit("T");
            reveal_strlit("W");
            assert("N"@ =~= seq!['N']);
            assert("S"@ =~= seq!['S']);
            assert("T"@ =~= seq!['T']);
            assert("W"@ =~= seq!['W']);
        }
        if starts_with(msg.command.as_str(), "N") {
            match &mut self.lobby {
                Some(lobby) => {
                    match &msg.id {
                        Some(name) => lobby.mark_ready(id, name.clone()),
                        None => {},
                    }
                    let lc = lobby.snapshot();
                    acts.push(AgentAction::Broadcast(AgentOutput::LobbyOutput(LobbyOutputs::LobbyRefresh(lc))));
                    proof {
                        let l = old(self)@.lobby->Some_0;
                        match msg@.id {
                            Some(n) => {
                                if l.peers.contains_key(id) {
                                    assert(self@.lobby->Some_0.peers =~= named_lobby(l, id, n).peers);
                                }
                            },
                            None => {},
                        }
                    }
                },
                None => {},
            }
            assert(actions_view(acts@) =~= peer_cmd_actions(old(self)@, id, msg@));
        } else if starts_with(msg.command.as_str(), "S") {
            acts.push(AgentAction::Broadcast(AgentOutput::LobbyOutput(LobbyOutputs::Sealed)));
            match &mut self.lobby {
                Some(lobby) => {
                    lobby.sealed = true;
                    let lc = lobby.snapshot();
                    acts.push(AgentAction::Broadcast(AgentOutput::LobbyOutput(LobbyOutputs::LobbyRefresh(lc))));
                },
                None => {},
            }
            assert(actions_view(acts@) =~= peer_cmd_actions(old(self)@, id, msg@));
        } else if starts_with(msg.command.as_str(), "T") {
            let turn = match &msg.id {
                Some(t) => text::parse_u32(t.as_str()),
                None => text::parse_u32(""),
            };
            proof {
                reveal_strlit("");
                assert(""@ =~= Seq::<char>::empty());
            }
            match turn {
                Some(t) => {
                    let mut a = self.change_turn(t, false);
                    acts.append(&mut a);
                },
                None => {},
            }
            assert(actions_view(acts@) =~= peer_cmd_actions(old(self)@, id, msg@));
        } else if starts_with(msg.command.as_str(), "W") {
            match &msg.data {
                Some(w) => {
                    let mut a = self.change_word(w.clone(), false);
                    acts.append(&mut a);
                },
                None => {},
            }
            assert(actions_view(acts@) =~= peer_cmd_actions(old(self)@, id, msg@));
        } else {
            assert(actions_view(acts@) =~= peer_cmd_actions(old(self)@, id, msg@));
        }
        acts
    }

    /// A text message from the peer `id` (`handle_peer_msg`).
    pub fn handle_peer_msg(&mut self, id: u32, msg: TransferData) -> (acts: Vec<AgentAction>)
        requires
            old(self)@.inv(),
        ensures
            final(self)@ == peer_msg_state(old(self)@, id, msg@),
            final(self)@.inv(),
            actions_view(acts@) == peer_msg_actions(old(self)@, id, msg@),
    {
        let mut acts = self.peer_command(id, &msg);
        let ghost a1 = actions_view(acts@);
        let (_, mut a2) = self.check_right_word(id, &msg);
        let ghost a2v = actions_view(a2@);
        acts.append(&mut a2);
        match &self.lobby {
            Some(lobby) => {
                let lc = lobby.snapshot();
                acts.push(AgentAction::Broadcast(AgentOutput::LobbyOutput(LobbyOutputs::PeerMessage(id, msg, lc))));
            },
            None => {},
        }
        assert(actions_view(acts@) =~= peer_msg_actions(old(self)@, id, msg@));
        acts
    }

    /// Who the server says this client is (`I: <id>`).
    fn on_init(&mut self, msg: &TransferData) -> (acts: Vec<AgentAction>)
        requires
            old(self)@.inv(),
            text::has_prefix(msg@.command, init_cmd()),
        ensures
            final(self)@.inv(),
            final(self)@ == socket_msg_state(old(self)@, msg@),
            actions_view(acts@) == socket_msg_actions(old(self)@, msg@),
    {
        let mut acts: Vec<AgentAction> = Vec::new();
        let parsed = match &msg.id {
            Some(t) => text::parse_u32_trimmed(t.as_str()),
            None => text::parse_u32_trimmed(""),
        };
        let name = match &self.name {
            Some(n) => n.clone(),
            None => String::new(),
        };
        proof {
            reveal_strlit("");
            assert(""@ =~= Seq::<char>::empty());
        }
        match &mut self.lobby {
            Some(lobby) => {
                match parsed {
                    Some(selfid) => {
                        lobby.selfid = selfid;
                        lobby.put_peer(selfid, Peer::new_self(selfid, name));
                    },
                    None => {},
                }
                let lc = lobby.snapshot();
                acts.push(AgentAction::Broadcast(AgentOutput::LobbyOutput(LobbyOutputs::Connected(lc))));
            },
            None => {
                match parsed {
                    Some(selfid) => {
                        self.lobby = Some(Lobby::new_with_self(selfid, name));
                    },
                    None => {},
                }
            },
        }
        assert(actions_view(acts@) =~= socket_msg_actions(old(self)@, msg@));
        acts
    }

    /// Which room this client joined (`J: <room>`).
    fn on_join(&mut self, msg: &TransferData) -> (acts: Vec<AgentAction>)
        requires
            old(self)@.inv(),
            text::has_prefix(msg@.command, join_cmd()),
        ensures
            final(self)@.inv(),
            final(self)@ == socket_msg_state(old(self)@, msg@),
            actions_view(acts@) == socket_msg_actions(old(self)@, msg@),
    {
        let mut acts: Vec<AgentAction> = Vec::new();
        proof {
            assert(!text::has_prefix(msg@.command, init_cmd())) by {
                assert(msg@.command[0] == 'J');
                assert(init_cmd()[0] == 'I');
            }
        }
        match &mut self.lobby {
            Some(lobby) => {
                match &msg.id {
                    Some(roomid) => {
                        lobby.roomid = roomid.clone();
                    },
                    None => {},
                }
                let lc = lobby.snapshot();
                acts.push(AgentAction::Broadcast(AgentOutput::LobbyOutput(LobbyOutputs::Connected(lc))));
            },
            None => {
                match &msg.id {
                    Some(roomid) => {
                        self.lobby = Some(Lobby::new_room(roomid.clone()));
                    },
                    None => {},
                }
            },
        }
        assert(actions_view(acts@) =~= socket_msg_actions(old(self)@, msg@));
        acts
    }

    /// A new peer in the room (`N: <id>`): it joins the lobby and a peer
    /// connection to it is queued.
    fn on_new_peer(&mut self, msg: &TransferData) -> (acts: Vec<AgentAction>)
        requires
            old(self)@.inv(),
            text::has_prefix(msg@.command, new_peer_cmd()),
        ensures
            final(self)@.inv(),
            final(self)@ == socket_msg_state(old(self)@, msg@),
            actions_view(acts@) == socket_msg_actions(old(self)@, msg@),
    {
        let mut acts: Vec<AgentAction> = Vec::new();
        proof {
            assert(msg@.command[0] == 'N');
            assert(!text::has_prefix(msg@.command, init_cmd())) by {
                assert(init_cmd()[0] == 'I');
            }
            assert(!text::has_prefix(msg@.command, join_cmd())) by {
                assert(join_cmd()[0] == 'J');
            }
            reveal_strlit("");
            assert(""@ =~= Seq::<char>::empty());
        }
        let parsed = match &msg.id {
            Some(t) => text::parse_u32(t.as_str()),
            None => text::parse_u32(""),
        };
        match &mut self.lobby {
            Some(lobby) => {
                match parsed {
                    Some(id) => {
                        lobby.put_peer(id, Peer::new_remote(id));
                        acts.push(AgentAction::QueuePeerConnect(id));
                    },
                    None => {},
                }
            },
            None => {},
        }
        assert(actions_view(acts@) =~= socket_msg_actions(old(self)@, msg@));
        acts
    }

    /// The peer and payload of a relayed offer, answer or candidate.
    fn find_relay_target(&self, msg: &TransferData) -> (r: Option<(u32, String)>)
        ensures
            match r {
                Some((p, d)) => relay_target(self@, msg@) == Some((p, d@)),
                None => relay_target(self@, msg@) is None,
            },
    {
        proof {
            reveal_strlit("");
            assert(""@ =~= Seq::<char>::empty());
        }
        let parsed = match &msg.id {
            Some(t) => text::parse_u32(t.as_str()),
            None => text::parse_u32(""),
        };
        match (&self.lobby, &msg.data, parsed) {
            (Some(lobby), Some(d), Some(p)) => {
                match lobby.peers.get(&p) {
                    Some(peer) => {
                        if peer.connected {
                            Some((p, d.clone()))
                        } else {
                            None
                        }
                    },
                    None => None,
                }
            },
            _ => None,
        }
    }

    /// Sealing announced by the server (`S: `).
    fn on_seal(&mut self) -> (acts: Vec<AgentAction>)
        requires
            old(self)@.inv(),
        ensures
            final(self)@.inv(),
            final(self)@ == (match old(self)@.lobby {
                Some(l) => old(self)@.with_lobby(Some(LobbyView { sealed: true, ..l })),
                None => old(self)@,
            }),
            actions_view(acts@) == seq![ActionView::Broadcast(OutputView::Sealed)] + match final(self)@.lobby {
                Some(l) => seq![refresh(l)],
                None => Seq::<ActionView>::empty(),
            },
    {
        let mut acts: Vec<AgentAction> = Vec::new();
        acts.push(AgentAction::Broadcast(AgentOutput::LobbyOutput(LobbyOutputs::Sealed)));
        match &mut self.lobby {
            Some(lobby) => {
                lobby.sealed = true;
                let lc = lobby.snapshot();
                acts.push(AgentAction::Broadcast(AgentOutput::LobbyOutput(LobbyOutputs::LobbyRefresh(lc))));
            },
            None => {},
        }
        assert(actions_view(acts@) =~= seq![ActionView::Broadcast(OutputView::Sealed)] + match self@.lobby {
            Some(l) => seq![refresh(l)],
            None => Seq::<ActionView>::empty(),
        });
        acts
    }

    /// A message from the server (`handle_socket_msg`).
    pub fn handle_socket_msg(&mut self, msg: &TransferData) -> (acts: Vec<AgentAction>)
        requires
            old(self)@.inv(),
        ensures
            final(self)@.inv(),
            final(self)@ == socket_msg_state(old(self)@, msg@),
            actions_view(acts@) == socket_msg_actions(old(self)@, msg@),
    {
        proof {
            reveal_strlit("I: ");
            reveal_strlit("J: ");
            reveal_strlit("N: ");
            reveal_strlit("O: ");
            reveal_strlit("A: ");
            reveal_strlit("C: ");
            reveal_strlit("S: ");
            assert("I: "@ =~= init_cmd());
            assert("J: "@ =~= join_cmd());
            assert("N: "@ =~= new_peer_cmd());
            assert("O: "@ =~= offer_cmd());
            assert("A: "@ =~= answer_cmd());
            assert("C: "@ =~= candidate_cmd());
            assert("S: "@ =~= seal_cmd());
        }
        let c = msg.command.as_str();
        let ghost m = msg@.command;
        if starts_with(c, "I: ") {
            return self.on_init(msg);
        }
        if starts_with(c, "J: ") {
            return self.on_join(msg);
        }
        if starts_with(c, "N: ") {
            return self.on_new_peer(msg);
        }
        proof {
            assert(m.len() >= 3 ==> m.subrange(0, 3)[0] == m[0]);
        }
        let mut acts: Vec<AgentAction> = Vec::new();
        if starts_with(c, "O: ") {
            match self.find_relay_target(msg) {
                Some((p, d)) => acts.push(AgentAction::ApplyOffer(p, d)),
                None => {},
            }
            proof {
                assert(m[0] == 'O');
                assert(init_cmd()[0] == 'I' && join_cmd()[0] == 'J' && new_peer_cmd()[0] == 'N');
            }
            assert(actions_view(acts@) =~= socket_msg_actions(old(self)@, msg@));
            return acts;
        }
        if starts_with(c, "A: ") {
            match self.find_relay_target(msg) {
                Some((p, d)) => acts.push(AgentAction::ApplyAnswer(p, d)),
                None => {},
            }
            proof {
                assert(m[0] == 'A');
                assert(init_cmd()[0] == 'I' && join_cmd()[0] == 'J' && new_peer_cmd()[0] == 'N');
                assert(offer_cmd()[0] == 'O');
            }
            assert(actions_view(acts@) =~= socket_msg_actions(old(self)@, msg@));
            return acts;
        }
        if starts_with(c, "C: ") {
            match self.find_relay_target(msg) {
                Some((p, d)) => acts.push(AgentAction::AddIceCandidate(p, d)),
                None => {},
            }
            proof {
                assert(m[0] == 'C');
                assert(init_cmd()[0] == 'I' && join_cmd()[0] == 'J' && new_peer_cmd()[0] == 'N');
                assert(offer_cmd()[0] == 'O' && answer_cmd()[0] == 'A');
            }
            assert(actions_view(acts@) =~= socket_msg_actions(old(self)@, msg@));
            return acts;
        }
        if starts_with(c, "S: ") {
            proof {
                assert(m[0] == 'S');
                assert(init_cmd()[0] == 'I' && join_cmd()[0] == 'J' && new_peer_cmd()[0] == 'N');
                assert(offer_cmd()[0] == 'O' && answer_cmd()[0] == 'A' && candidate_cmd()[0] == 'C');
            }
            return self.on_seal();
        }
        assert(actions_view(acts@) =~= socket_msg_actions(old(self)@, msg@));
        acts
    }

    /// Opens a peer connection to the peer `peerid`; the side with the lower
    /// id makes the offer and opens the data channel (`peer_connect`).
    pub fn peer_connect(&self, peerid: u32) -> (acts: Vec<AgentAction>)
        requires
            update_allowed(self@, Msg::PeerConnect(peerid)),
        ensures
            actions_view(acts@) == update_actions(self@, Msg::PeerConnect(peerid)),
    {
        let mut acts: Vec<AgentAction> = Vec::new();
        match &self.lobby {
            Some(lobby) => {
                acts.push(
                    AgentAction::CreatePeerConnection {
                        peer: peerid,
                        self_id: lobby.selfid,
                        initiator: peerid > lobby.selfid,
                    },
                );
            },
            None => {},
        }
        assert(actions_view(acts@) =~= update_actions(self@, Msg::PeerConnect(peerid)));
        acts
    }

    /// The peer connection to `peerid` exists now.
    pub fn connection_created(&mut self, peerid: u32)
        requires
            old(self)@.inv(),
        ensures
            final(self)@.inv(),
            final(self)@ == (match old(self)@.lobby {
                Some(l) => if l.peers.contains_key(peerid) {
                    old(self)@.with_lobby(
                        Some(
                            l.with_peers(
                                l.peers.insert(peerid, PeerView { connected: true, ..l.peers[peerid] }),
                            ),
                        ),
                    )
                } else {
                    old(self)@
                },
                None => old(self)@,
            }),
    {
        match &mut self.lobby {
            Some(lobby) => lobby.mark_connected(peerid),
            None => {},
        }
    }

    /// The peer `peerid` is gone (`peer_disconnect`).
    pub fn peer_disconnect(&mut self, peerid: u32) -> (acts: Vec<AgentAction>)
        requires
            old(self)@.inv(),
        ensures
            final(self)@.inv(),
            final(self)@ == update_state(old(self)@, Msg::PeerDisconnect(peerid)),
            actions_view(acts@) == update_actions(old(self)@, Msg::PeerDisconnect(peerid)),
    {
        let mut acts: Vec<AgentAction> = Vec::new();
        match &mut self.lobby {
            Some(lobby) => {
                lobby.take_peer(peerid);
                let lc = lobby.snapshot();
                acts.push(AgentAction::Broadcast(AgentOutput::LobbyOutput(LobbyOutputs::LobbyRefresh(lc))));
            },
            None => {},
        }
        assert(actions_view(acts@) =~= update_actions(old(self)@, Msg::PeerDisconnect(peerid)));
        acts
    }

    /// A data channel to the peer `peerid` exists (`set_data_channel`).
    pub fn set_data_channel(&mut self, peerid: u32) -> (acts: Vec<AgentAction>)
        requires
            old(self)@.inv(),
        ensures
            final(self)@.inv(),
            final(self)@ == update_state(old(self)@, Msg::PeerDataChannel(peerid)),
            actions_view(acts@) == update_actions(old(self)@, Msg::PeerDataChannel(peerid)),
    {
        let mut acts: Vec<AgentAction> = Vec::new();
        match &mut self.lobby {
            Some(lobby) => {
                match lobby.mark_channel(peerid) {
                    Some(connected) => {
                        acts.push(AgentAction::WatchDataChannel { peer: peerid, watch_ice: connected });
                    },
                    None => {},
                }
            },
            None => {},
        }
        assert(actions_view(acts@) =~= update_actions(old(self)@, Msg::PeerDataChannel(peerid)));
        acts
    }

    /// Takes one event (`update`).
    pub fn update(&mut self, msg: Msg) -> (acts: Vec<AgentAction>)
        requires
            old(self)@.inv(),
            update_allowed(old(self)@, msg),
        ensures
            final(self)@.inv(),
            final(self)@ == update_state(old(self)@, msg),
            actions_view(acts@) == update_actions(old(self)@, msg),
    {
        let ghost m = msg;
        match msg {
            Msg::Connected(_url) => {
                self.socket_open = true;
                let mut acts: Vec<AgentAction> = Vec::new();
                acts.push(AgentAction::Broadcast(AgentOutput::SocketOutput(SocketOutputs::Connected)));
                assert(actions_view(acts@) =~= update_actions(old(self)@, m));
                acts
            },
            Msg::SocketMessage(t) => {
                let mut acts = self.handle_socket_msg(&t);
                let ghost a1 = actions_view(acts@);
                acts.push(AgentAction::Broadcast(AgentOutput::SocketOutput(SocketOutputs::SocketMessage(t))));
                assert(actions_view(acts@) =~= update_actions(old(self)@, m));
                acts
            },
            Msg::Disconnected => {
                self.socket_open = false;
                let mut acts: Vec<AgentAction> = Vec::new();
                acts.push(AgentAction::Broadcast(AgentOutput::SocketOutput(SocketOutputs::Disconnected)));
                assert(actions_view(acts@) =~= update_actions(old(self)@, m));
                acts
            },
            Msg::PeerConnect(id) => self.peer_connect(id),
            Msg::PeerDisconnect(id) => self.peer_disconnect(id),
            Msg::SendSocketMessage(t) => self.send_socket_message(&t),
            Msg::PeerDataChannel(id) => self.set_data_channel(id),
            Msg::PeerDataChannelMessage(id, t) => self.handle_peer_msg(id, t),
            Msg::PeerDataChannelBinaryMessage(id, b) => {
                let mut acts: Vec<AgentAction> = Vec::new();
                acts.push(AgentAction::Broadcast(AgentOutput::LobbyOutput(LobbyOutputs::PeerBinaryMessage(id, b))));
                assert(actions_view(acts@) =~= update_actions(old(self)@, m));
                acts
            },
            Msg::PeerDataChannelOpened(id) => {
                let name = match &self.name {
                    Some(n) => Some(n.clone()),
                    None => None,
                };
                let t = TransferData { command: "N".to_owned(), id: name, data: None };
                proof {
                    reveal_strlit("N");
                    assert(t@.command =~= seq!['N']);
                    assert(t@ == name_message(self@));
                }
                self.send_peer_msg(id, &t)
            },
            Msg::Ignore => {
                let acts: Vec<AgentAction> = Vec::new();
                assert(actions_view(acts@) =~= update_actions(old(self)@, m));
                acts
            },
        }
    }

    /// Takes a request of a subscriber (`handle_input`).
    pub fn handle_input(&mut self, msg: AgentInput, handler: u64) -> (acts: Vec<AgentAction>)
        requires
            old(self)@.inv(),
        ensures
            final(self)@.inv(),
            match msg {
                AgentInput::SocketInput(SocketInputs::Connect(url, name)) => {
                    &&& final(self)@ == (AgentView { name: Some(name@), ..old(self)@ })
                    &&& actions_view(acts@) == seq![ActionView::OpenSocket(url@)]
                },
                AgentInput::SocketInput(SocketInputs::SendData(t)) => {
                    &&& final(self)@ == old(self)@
                    &&& actions_view(acts@) == send_socket_spec(old(self)@, wire::frame_spec(t@))
                },
                AgentInput::LobbyInput(LobbyInputs::RequestLobby) => {
                    &&& final(self)@ == old(self)@
                    &&& actions_view(acts@) == seq![
                        ActionView::Respond(handler, OutputView::RequestResult(old(self)@.lobby)),
                    ]
                },
                AgentInput::LobbyInput(LobbyInputs::PeerMessage(id, t)) => {
                    &&& final(self)@ == old(self)@
                    &&& actions_view(acts@) == send_peer_spec(old(self)@, id, wire::frame_spec(t@))
                },
                AgentInput::LobbyInput(LobbyInputs::PeerBroadcastMessage(t)) => {
                    &&& final(self)@ == broadcast_state(old(self)@, t@)
                    &&& is_broadcast(old(self)@, t@, actions_view(acts@))
                },
                AgentInput::LobbyInput(LobbyInputs::PeerBroadcastBinaryMessage(b)) => {
                    &&& final(self)@ == old(self)@
                    &&& match old(self)@.lobby {
                        Some(l) => is_binary_fanout(actions_view(acts@), fanout_targets(l), b@),
                        None => acts@.len() == 0,
                    }
                },
                AgentInput::LobbyInput(LobbyInputs::SealLobby) => seal_result(
                    old(self)@,
                    final(self)@,
                    actions_view(acts@),
                ),
                AgentInput::LobbyInput(LobbyInputs::ChangeTurn(turn)) => turn_result(
                    old(self)@,
                    turn,
                    true,
                    final(self)@,
                    actions_view(acts@),
                ),
                AgentInput::LobbyInput(LobbyInputs::ChangeWord(word)) => word_result(
                    old(self)@,
                    word@,
                    true,
                    final(self)@,
                    actions_view(acts@),
                ),
            },
    {
        match msg {
            AgentInput::SocketInput(SocketInputs::Connect(url, name)) => {
                self.name = Some(name);
                let mut acts: Vec<AgentAction> = Vec::new();
                acts.push(AgentAction::OpenSocket(url));
                assert(actions_view(acts@) =~= seq![ActionView::OpenSocket(url@)]);
                acts
            },
            AgentInput::SocketInput(SocketInputs::SendData(t)) => self.send_socket_message(&t),
            AgentInput::LobbyInput(LobbyInputs::RequestLobby) => {
                let copy = match &self.lobby {
                    Some(l) => Some(l.snapshot()),
                    None => None,
                };
                let mut acts: Vec<AgentAction> = Vec::new();
                acts.push(AgentAction::Respond(handler, AgentOutput::LobbyOutput(LobbyOutputs::RequestResult(copy))));
                assert(actions_view(acts@) =~= seq![
                    ActionView::Respond(handler, OutputView::RequestResult(old(self)@.lobby)),
                ]);
                acts
            },
            AgentInput::LobbyInput(LobbyInputs::PeerMessage(id, t)) => self.send_peer_msg(id, &t),
            AgentInput::LobbyInput(LobbyInputs::PeerBroadcastMessage(t)) => self.peer_broadcast(&t),
            AgentInput::LobbyInput(LobbyInputs::PeerBroadcastBinaryMessage(b)) => self.peer_broadcast_binary(&b),
            AgentInput::LobbyInput(LobbyInputs::SealLobby) => self.seal_lobby(),
            AgentInput::LobbyInput(LobbyInputs::ChangeTurn(turn)) => self.change_turn(turn, true),
            AgentInput::LobbyInput(LobbyInputs::ChangeWord(word)) => self.change_word(word, true),
        }
    }
}


/// A turn change reaches the peers intact: a peer that reads the frame that
/// `change_turn` sends passes the turn to the same player, clears the word
/// and forgets who has guessed, whoever sent it.
pub proof fn lemma_turn_message_applies(s: AgentView, from: u32, turn: u32)
    requires
        s.lobby is Some,
    ensures
        wire::parsable(wire::frame_spec(turn_message(turn))),
        peer_msg_state(s, from, wire::parse_spec(wire::frame_spec(turn_message(turn)))).lobby == Some(
            turned_lobby(s.lobby->Some_0, turn),
        ),
{
    let v = turn_message(turn);
    text::lemma_parse_decimal(turn);
    text::lemma_decimal_digits_pub(turn as nat);
    assert(vstd::utf8::is_ascii_chars(seq!['T']));
    assert(v.command =~= seq!['T']);
    wire::lemma_frame_then_parse(v);
    let m = wire::parse_spec(wire::frame_spec(v));
    assert(m == wire::read_back(v));
    assert(m.command =~= seq!['T', ':', ' ']);
    assert(m.command.subrange(0, 1) =~= seq!['T']);
    assert(!text::has_prefix(m.command, seq!['N']));
    assert(!text::has_prefix(m.command, seq!['S']));
    assert(!text::has_prefix(m.command, seq!['C']));
    assert(m.id == Some(text::decimal(turn as nat)));
}

/// A right guess sent over a data channel is recognised: when a peer sends
/// the chat message `C` with a payload that equals the word, ASCII case
/// aside, the receiver marks that peer as having guessed, and leaves the
/// word and the turn as they were.
pub proof fn lemma_chat_guess_from_peer(s: AgentView, from: u32, g: Seq<char>)
    requires
        s.lobby is Some,
        s.lobby->Some_0.peers.contains_key(from),
        wire::no_newline(g),
        text::eq_ignore_ascii_case_spec(g, s.lobby->Some_0.word),
    ensures
        ({
            let m = wire::parse_spec(wire::frame_spec(TransferView { command: seq!['C'], id: None, data: Some(g) }));
            let l2 = peer_msg_state(s, from, m).lobby->Some_0;
            &&& peer_msg_state(s, from, m).lobby is Some
            &&& l2.peers.contains_key(from)
            &&& l2.peers[from].guessed
            &&& l2.word == s.lobby->Some_0.word
            &&& l2.turn == s.lobby->Some_0.turn
        }),
{
    let v = TransferView { command: seq!['C'], id: None, data: Some(g) };
    assert(vstd::utf8::is_ascii_chars(seq!['C']));
    assert(wire::no_newline(wire::or_empty(v.id))) by {
        assert(wire::or_empty(v.id) =~= Seq::<char>::empty());
    }
    wire::lemma_frame_then_parse(v);
    let m = wire::parse_spec(wire::frame_spec(v));
    assert(m == wire::read_back(v));
    assert(m.command =~= seq!['C', ':', ' ']);
    assert(m.command.subrange(0, 1) =~= seq!['C']);
    assert(!text::has_prefix(m.command, seq!['N']));
    assert(!text::has_prefix(m.command, seq!['S']));
    assert(!text::has_prefix(m.command, seq!['T']));
    assert(!text::has_prefix(m.command, seq!['W']));
    assert(wire::or_empty(m.data) == g);
}

/// This client's own right guess is recorded when it broadcasts it: a chat
/// message (a command that starts with `C`) whose payload equals the word,
/// ASCII case aside, marks this client's own peer as having guessed, and no
/// other peer changes.
pub proof fn lemma_own_guess_recorded(s: AgentView, m: TransferView, k: u32)
    requires
        s.lobby is Some,
        s.lobby->Some_0.peers.contains_key(s.lobby->Some_0.selfid),
        text::has_prefix(m.command, seq!['C']),
        text::eq_ignore_ascii_case_spec(wire::or_empty(m.data), s.lobby->Some_0.word),
    ensures
        broadcast_state(s, m).lobby is Some,
        broadcast_state(s, m).lobby->Some_0.peers[s.lobby->Some_0.selfid].guessed,
        k != s.lobby->Some_0.selfid && s.lobby->Some_0.peers.contains_key(k) ==> broadcast_state(s, m).lobby->Some_0.peers[k]
            == s.lobby->Some_0.peers[k],
{
}

/// A peer's data channel is watched together with its connection's state
/// exactly when the peer has a peer connection: after the connection to a
/// peer of the lobby is made, a failing connection is noticed.
pub proof fn lemma_connected_channel_watches_ice(s: AgentView, id: u32)
    requires
        s.lobby is Some,
        s.lobby->Some_0.peers.contains_key(id),
    ensures
        update_actions(s, Msg::PeerDataChannel(id)).len() == 1,
        update_actions(s, Msg::PeerDataChannel(id))[0] is WatchDataChannel,
        update_actions(s, Msg::PeerDataChannel(id))[0]->WatchDataChannel_peer == id,
        update_actions(s, Msg::PeerDataChannel(id))[0]->watch_ice <==> s.lobby->Some_0.peers[id].connected,
        ({
            let l = s.lobby->Some_0;
            let s1 = s.with_lobby(Some(l.with_peers(l.peers.insert(id, PeerView { connected: true, ..l.peers[id] }))));
            update_actions(s1, Msg::PeerDataChannel(id))[0]->watch_ice
        }),
{
}

/// A turn change that a peer sends tells the subscribers what a local turn
/// change tells them: first that the turn changed, then the new lobby.
pub proof fn lemma_peer_turn_tells_like_local(s: AgentView, from: u32, turn: u32, s2: AgentView, acts: Seq<ActionView>)
    requires
        s.lobby is Some,
        turn_result(s, turn, false, s2, acts),
    ensures
        ({
            let pa = peer_msg_actions(s, from, wire::parse_spec(wire::frame_spec(turn_message(turn))));
            &&& pa.len() >= 2
            &&& pa[0] == ActionView::Broadcast(OutputView::TurnChanged(turn, turn))
            &&& pa.subrange(0, 2) == acts
        }),
{
    lemma_turn_message_applies(s, from, turn);
    let v = turn_message(turn);
    text::lemma_parse_decimal(turn);
    text::lemma_decimal_digits_pub(turn as nat);
    assert(vstd::utf8::is_ascii_chars(seq!['T']));
    assert(v.command =~= seq!['T']);
    wire::lemma_frame_then_parse(v);
    let m = wire::parse_spec(wire::frame_spec(v));
    assert(m == wire::read_back(v));
    assert(m.command =~= seq!['T', ':', ' ']);
    assert(m.command.subrange(0, 1) =~= seq!['T']);
    assert(!text::has_prefix(m.command, seq!['N']));
    assert(!text::has_prefix(m.command, seq!['S']));
    assert(!text::has_prefix(m.command, seq!['C']));
    assert(m.id == Some(text::decimal(turn as nat)));
    let pa = peer_msg_actions(s, from, m);
    assert(pa.subrange(0, 2) =~= acts);
}

/// A relayed offer, answer or candidate for a peer of the lobby that has a
/// peer connection is applied to that connection, whether or not the peer's
/// data channel exists yet (the answering side gets its channel only after
/// it answers).
pub proof fn lemma_relay_applies_to_connected_peer(s: AgentView, m: TransferView, p: u32, d: Seq<char>)
    requires
        s.lobby is Some,
        s.lobby->Some_0.peers.contains_key(p),
        s.lobby->Some_0.peers[p].connected,
        m.data == Some(d),
        text::parse_u32_spec(wire::or_empty(m.id)) == Some(p),
        text::has_prefix(m.command, offer_cmd()) || text::has_prefix(m.command, answer_cmd())
            || text::has_prefix(m.command, candidate_cmd()),
    ensures
        text::has_prefix(m.command, offer_cmd()) ==> socket_msg_actions(s, m) == seq![ActionView::ApplyOffer(p, d)],
        text::has_prefix(m.command, answer_cmd()) ==> socket_msg_actions(s, m) == seq![ActionView::ApplyAnswer(p, d)],
        text::has_prefix(m.command, candidate_cmd()) ==> socket_msg_actions(s, m) == seq![
            ActionView::AddIceCandidate(p, d),
        ],
        socket_msg_state(s, m) == s,
{
    assert(m.command.subrange(0, 3)[0] == m.command[0]);
    let c = m.command[0];
    assert(c == 'O' || c == 'A' || c == 'C');
    assert(!text::has_prefix(m.command, init_cmd())) by {
        if text::has_prefix(m.command, init_cmd()) {
            assert(m.command.subrange(0, 3)[0] == 'I');
        }
    }
    assert(!text::has_prefix(m.command, join_cmd())) by {
        if text::has_prefix(m.command, join_cmd()) {
            assert(m.command.subrange(0, 3)[0] == 'J');
        }
    }
    assert(!text::has_prefix(m.command, new_peer_cmd())) by {
        if text::has_prefix(m.command, new_peer_cmd()) {
            assert(m.command.subrange(0, 3)[0] == 'N');
        }
    }
    if text::has_prefix(m.command, answer_cmd()) || text::has_prefix(m.command, candidate_cmd()) {
        assert(!text::has_prefix(m.command, offer_cmd())) by {
            if text::has_prefix(m.command, offer_cmd()) {
                assert(m.command.subrange(0, 3)[0] == 'O');
            }
        }
    }
    if text::has_prefix(m.command, candidate_cmd()) {
        assert(!text::has_prefix(m.command, answer_cmd())) by {
            if text::has_prefix(m.command, answer_cmd()) {
                assert(m.command.subrange(0, 3)[0] == 'A');
            }
        }
    }
}

/// A new word reaches the peers intact: a peer that reads the frame that
/// `change_word` sends takes the same word and forgets who has guessed, when
/// the word holds no line feed.
pub proof fn lemma_word_message_applies(s: AgentView, from: u32, word: Seq<char>)
    requires
        s.lobby is Some,
        wire::no_newline(word),
    ensures
        wire::parsable(wire::frame_spec(word_message(word))),
        peer_msg_state(s, from, wire::parse_spec(wire::frame_spec(word_message(word)))).lobby == Some(
            worded_lobby(s.lobby->Some_0, word),
        ),
{
    let v = word_message(word);
    assert(vstd::utf8::is_ascii_chars(seq!['W']));
    assert(v.command =~= seq!['W']);
    assert(wire::no_newline(wire::or_empty(v.id))) by {
        assert(wire::or_empty(v.id) =~= Seq::<char>::empty());
    }
    wire::lemma_frame_then_parse(v);
    let m = wire::parse_spec(wire::frame_spec(v));
    assert(m == wire::read_back(v));
    assert(m.command =~= seq!['W', ':', ' ']);
    assert(m.command.subrange(0, 1) =~= seq!['W']);
    assert(!text::has_prefix(m.command, seq!['N']));
    assert(!text::has_prefix(m.command, seq!['S']));
    assert(!text::has_prefix(m.command, seq!['T']));
    assert(!text::has_prefix(m.command, seq!['C']));
}

/// A name reaches the peers intact: a peer that reads the frame that an
/// opened data channel sends marks its sender ready under that name, when
/// the name is not empty and holds no line feed.
pub proof fn lemma_name_message_applies(sender: AgentView, s: AgentView, from: u32)
    requires
        s.lobby is Some,
        sender.name matches Some(n) && n.len() > 0 && wire::no_newline(n),
    ensures
        wire::parsable(wire::frame_spec(name_message(sender))),
        peer_msg_state(s, from, wire::parse_spec(wire::frame_spec(name_message(sender)))).lobby == Some(
            named_lobby(s.lobby->Some_0, from, sender.name->Some_0),
        ),
{
    let v = name_message(sender);
    assert(vstd::utf8::is_ascii_chars(seq!['N']));
    assert(v.command =~= seq!['N']);
    assert(wire::no_newline(wire::or_empty(v.data))) by {
        assert(wire::or_empty(v.data) =~= Seq::<char>::empty());
    }
    wire::lemma_frame_then_parse(v);
    let m = wire::parse_spec(wire::frame_spec(v));
    assert(m == wire::read_back(v));
    assert(m.command =~= seq!['N', ':', ' ']);
    assert(m.command.subrange(0, 1) =~= seq!['N']);
    assert(!text::has_prefix(m.command, seq!['C']));
}

/// A seal reaches the peers intact: a peer that reads the frame that
/// `seal_lobby` sends marks its lobby sealed and changes nothing else.
pub proof fn lemma_seal_message_applies(s: AgentView, from: u32)
    requires
        s.lobby is Some,
    ensures
        wire::parsable(wire::frame_spec(seal_message())),
        peer_msg_state(s, from, wire::parse_spec(wire::frame_spec(seal_message()))).lobby == Some(
            LobbyView { sealed: true, ..s.lobby->Some_0 },
        ),
{
    let v = seal_message();
    assert(vstd::utf8::is_ascii_chars(seq!['S']));
    assert(v.command =~= seq!['S']);
    assert(wire::no_newline(wire::or_empty(v.id))) by {
        assert(wire::or_empty(v.id) =~= Seq::<char>::empty());
    }
    assert(wire::no_newline(wire::or_empty(v.data))) by {
        assert(wire::or_empty(v.data) =~= Seq::<char>::empty());
    }
    wire::lemma_frame_then_parse(v);
    let m = wire::parse_spec(wire::frame_spec(v));
    assert(m == wire::read_back(v));
    assert(m.command =~= seq!['S', ':', ' ']);
    assert(m.command.subrange(0, 1) =~= seq!['S']);
    assert(!text::has_prefix(m.command, seq!['N']));
    assert(!text::has_prefix(m.command, seq!['C']));
}

/// Sealing leaves only ready peers, each as it was, and marks the lobby
/// sealed; every ready peer stays.
pub proof fn lemma_seal_keeps_ready(s: AgentView, s2: AgentView, acts: Seq<ActionView>)
    requires
        seal_result(s, s2, acts),
        s.lobby is Some,
    ensures
        s2.lobby is Some,
        s2.lobby->Some_0.sealed,
        forall|k: u32| #[trigger] s2.lobby->Some_0.peers.contains_key(k) ==> s2.lobby->Some_0.peers[k].is_ready
            && s.lobby->Some_0.peers.contains_key(k) && s2.lobby->Some_0.peers[k] == s.lobby->Some_0.peers[k],
        forall|k: u32| #[trigger] s.lobby->Some_0.peers.contains_key(k) && s.lobby->Some_0.peers[k].is_ready
            ==> s2.lobby->Some_0.peers.contains_key(k),
{
}

/// After a turn or word change nobody has guessed, and the same peers are
/// there.
pub proof fn lemma_new_round_clears_guesses(l: LobbyView, turn: u32, word: Seq<char>)
    ensures
        forall|k: u32| #[trigger] turned_lobby(l, turn).peers.contains_key(k) ==> !turned_lobby(l, turn).peers[k].guessed,
        forall|k: u32| #[trigger] worded_lobby(l, word).peers.contains_key(k) ==> !worded_lobby(l, word).peers[k].guessed,
        turned_lobby(l, turn).peers.dom() == l.peers.dom(),
        worded_lobby(l, word).peers.dom() == l.peers.dom(),
{
    assert(turned_lobby(l, turn).peers.dom() =~= l.peers.dom());
    assert(worded_lobby(l, word).peers.dom() =~= l.peers.dom());
}

/// A right guess marks its sender, and nobody else, as having guessed; any
/// other message changes nothing.
pub proof fn lemma_guess_marks_only_sender(s: AgentView, id: u32, m: TransferView, k: u32)
    requires
        s.lobby is Some,
        k != id,
    ensures
        check_word_state(s, id, m).lobby is Some,
        check_word_state(s, id, m).lobby->Some_0.peers.dom() == s.lobby->Some_0.peers.dom(),
        s.lobby->Some_0.peers.contains_key(k) ==> check_word_state(s, id, m).lobby->Some_0.peers[k]
            == s.lobby->Some_0.peers[k],
        is_right_word(s, m) && s.lobby->Some_0.peers.contains_key(id) ==> check_word_state(
            s,
            id,
            m,
        ).lobby->Some_0.peers[id].guessed,
        !is_right_word(s, m) ==> check_word_state(s, id, m) == s,
{
    if is_right_word(s, m) && s.lobby->Some_0.peers.contains_key(id) {
        let l = s.lobby->Some_0;
        assert(check_word_state(s, id, m).lobby->Some_0.peers.dom() =~= l.peers.dom());
    }
}

/// A message to everybody never goes to this client itself, and goes only
/// to peers with a data channel.
pub proof fn lemma_broadcast_skips_self(s: AgentView, m: TransferView, acts: Seq<ActionView>, i: int)
    requires
        is_broadcast(s, m, acts),
        0 <= i < acts.len(),
        acts[i] is SendPeer,
    ensures
        broadcast_state(s, m).lobby is Some,
        acts[i]->SendPeer_0 != broadcast_state(s, m).lobby->Some_0.selfid,
        broadcast_state(s, m).lobby->Some_0.peers.contains_key(acts[i]->SendPeer_0),
        broadcast_state(s, m).lobby->Some_0.peers[acts[i]->SendPeer_0].has_channel,
{
    let pre = check_word_actions(s, self_id_or_zero(s), m);
    if i < pre.len() {
        assert(acts.subrange(0, pre.len() as int)[i] == acts[i]);
        assert(false);
    }
    match broadcast_state(s, m).lobby {
        Some(l) => {
            let fan = acts.subrange(pre.len() as int, acts.len() as int);
            let j = i - pre.len();
            assert(fan[j] == acts[i]);
            let k = fan[j]->SendPeer_0;
            assert(fanout_targets(l).contains(k));
        },
        None => {},
    }
}

/// A peer that the server announces and that then leaves leaves the lobby
/// as it was, when it was not in the lobby before.
pub proof fn lemma_peer_join_then_leave(s: AgentView, m: TransferView, p: u32)
    requires
        s.lobby is Some,
        text::has_prefix(m.command, new_peer_cmd()),
        text::parse_u32_spec(wire::or_empty(m.id)) == Some(p),
        !s.lobby->Some_0.peers.contains_key(p),
    ensures
        socket_msg_state(s, m).lobby->Some_0.peers.contains_key(p),
        update_state(socket_msg_state(s, m), Msg::PeerDisconnect(p)).lobby == s.lobby,
{
    let l = s.lobby->Some_0;
    assert(m.command.subrange(0, 3)[0] == m.command[0]);
    assert(m.command[0] == 'N');
    assert(!text::has_prefix(m.command, init_cmd())) by {
        if text::has_prefix(m.command, init_cmd()) {
            assert(m.command.subrange(0, 3)[0] == 'I');
        }
    }
    assert(!text::has_prefix(m.command, join_cmd())) by {
        if text::has_prefix(m.command, join_cmd()) {
            assert(m.command.subrange(0, 3)[0] == 'J');
        }
    }
    assert(l.peers.insert(p, lobby::new_peer_view(p)).remove(p) =~= l.peers);
}

/// Whether `acts` is one peer connection made as the side that offers and
/// opens the data channel.
pub open spec fn opens_channel(acts: Seq<ActionView>) -> bool {
    &&& acts.len() == 1
    &&& (acts[0] matches ActionView::CreatePeerConnection { initiator, .. } && initiator)
}

/// Of two peers that connect to each other, each makes one peer connection,
/// and exactly one of them (the one with the lower id) makes the offer and
/// opens the data channel when their ids differ; with equal ids neither
/// does.
pub proof fn lemma_one_side_opens_channel(s1: AgentView, s2: AgentView)
    requires
        s1.lobby is Some,
        s2.lobby is Some,
    ensures
        ({
            let a = s1.lobby->Some_0.selfid;
            let b = s2.lobby->Some_0.selfid;
            &&& update_actions(s1, Msg::PeerConnect(b)).len() == 1
            &&& update_actions(s2, Msg::PeerConnect(a)).len() == 1
            &&& update_actions(s1, Msg::PeerConnect(b))[0] is CreatePeerConnection
            &&& update_actions(s2, Msg::PeerConnect(a))[0] is CreatePeerConnection
            &&& a != b ==> (opens_channel(update_actions(s1, Msg::PeerConnect(b))) <==> !opens_channel(
                update_actions(s2, Msg::PeerConnect(a)),
            ))
            &&& a != b ==> (opens_channel(update_actions(s1, Msg::PeerConnect(b))) <==> a < b)
            &&& a == b ==> !opens_channel(update_actions(s1, Msg::PeerConnect(b))) && !opens_channel(
                update_actions(s2, Msg::PeerConnect(a)),
            )
        }),
{
}

/// Subscribing and then leaving gives back the subscribers as they were.
pub proof fn lemma_subscribe_then_leave(subs: Seq<u64>, id: u64)
    requires
        !subs.contains(id),
    ensures
        subs.push(id).contains(id),
        subs.push(id).remove(first_index(subs.push(id), id)) == subs,
{
    let t = subs.push(id);
    assert(t[subs.len() as int] == id);
    let k = first_index(t, id);
    assert(0 <= subs.len() < t.len() && t[subs.len() as int] == id && forall|j: int| 0 <= j < subs.len() ==> t[j] != id) by {
        assert forall|j: int| 0 <= j < subs.len() implies t[j] != id by {
            assert(t[j] == subs[j]);
        }
    }
    assert(k == subs.len()) by {
        if k < subs.len() {
            assert(t[k] == subs[k]);
        }
    }
    assert(t.remove(k) =~= subs);
}

} // verus!

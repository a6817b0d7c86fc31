//! The peer connection's side of the signalling: the STUN servers it uses,
//! the messages that relay offers, answers and candidates through the
//! server, and the connection states that end a peer.

use crate::text::u32_to_string;
use crate::wire::{TransferData, TransferView};
use crate::text;
use vstd::prelude::*;

verus! {

broadcast use vstd::string::group_string_axioms;

/// The STUN servers of the peer connections.
pub fn ice_server_urls() -> (v: Vec<String>)
    ensures
        v@.len() == 5,
        v@[0]@ == "stun:stun.l.google.com:19302"@,
        v@[1]@ == "stun:stun1.l.google.com:19302"@,
        v@[2]@ == "stun:stun2.l.google.com:19302"@,
        v@[3]@ == "stun:stun3.l.google.com:19302"@,
        v@[4]@ == "stun:stun4.l.google.com:19302"@,
{
    let mut v: Vec<String> = Vec::new();
    v.push("stun:stun.l.google.com:19302".to_owned());
    v.push("stun:stun1.l.google.com:19302".to_owned());
    v.push("stun:stun2.l.google.com:19302".to_owned());
    v.push("stun:stun3.l.google.com:19302".to_owned());
    v.push("stun:stun4.l.google.com:19302".to_owned());
    v
}

/// What the server relays to a peer.
#[derive(Clone, Copy, Debug, PartialEq, Eq, Structural)]
pub enum RelayKind {
    Offer,
    Answer,
    Candidate,
}

pub open spec fn relay_command(kind: RelayKind) -> Seq<char> {
    match kind {
        RelayKind::Offer => seq!['O'],
        RelayKind::Answer => seq!['A'],
        RelayKind::Candidate => seq!['C'],
    }
}

/// The message that asks the server to relay an encoded description or
/// candidate to the peer `peer`.
pub fn relay_message(kind: RelayKind, peer: u32, payload: String) -> (t: TransferData)
    ensures
        t@ == (TransferView {
            command: relay_command(kind),
            id: Some(text::decimal(peer as nat)),
            data: Some(payload@),
        }),
{
    proof {
        reveal_strlit("O");
        reveal_strlit("A");
        reveal_strlit("C");
        assert("O"@ =~= seq!['O']);
        assert("A"@ =~= seq!['A']);
        assert("C"@ =~= seq!['C']);
    }
    let command = match kind {
        RelayKind::Offer => "O".to_owned(),
        RelayKind::Answer => "A".to_owned(),
        RelayKind::Candidate => "C".to_owned(),
    };
    TransferData { command, id: Some(u32_to_string(peer)), data: Some(payload) }
}

/// The state of a peer connection's ICE transport.
#[derive(Clone, Copy, Debug, PartialEq, Eq, Structural)]
pub enum IceConnectionState {
    New,
    Checking,
    Connected,
    Completed,
    Failed,
    Disconnected,
    Closed,
}

/// Whether the connection is lost for good, which ends the peer.
pub fn ends_peer(state: IceConnectionState) -> (b: bool)
    ensures
        b == (state == IceConnectionState::Disconnected || state == IceConnectionState::Failed
            || state == IceConnectionState::Closed),
{
    match state {
        IceConnectionState::Disconnected | IceConnectionState::Failed | IceConnectionState::Closed => true,
        _ => false,
    }
}

} // verus!

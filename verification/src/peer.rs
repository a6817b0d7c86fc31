//! A player's card: the border colour and the score it shows.

use crate::structures::{has_id, same_text, score_of, Player, State};
use crate::structures;
use crate::text::u32_to_string;
use vstd::prelude::*;

verus! {

/// The card of `peer` in a room in the state `state`.
pub struct PeerWidget {
    pub state: State,
    pub peer: Player,
}

impl PeerWidget {
    /// The border: none in the waiting room; in a round, blue for the
    /// leader, green for one who has guessed, else black.
    pub fn color(&self) -> (c: &'static str)
        ensures
            c@ == (match self.state {
                State::Lobby(_) => "transparent"@,
                State::Game(leader, _, d) => if self.peer.id@ == leader@ {
                    "blue"@
                } else if structures::contains_id(d.guessed@, self.peer.id@) {
                    "green"@
                } else {
                    "black"@
                },
            }),
    {
        match &self.state {
            State::Lobby(_) => "transparent",
            State::Game(leader, _, data) => {
                if same_text(self.peer.id.as_str(), leader.as_str()) {
                    "blue"
                } else if has_id(&data.guessed, self.peer.id.as_str()) {
                    "green"
                } else {
                    "black"
                }
            },
        }
    }

    /// The score: none in the waiting room; in a round, the player's score
    /// in decimal, 0 when it has none.
    pub fn score(&self) -> (s: Option<String>)
        ensures
            match self.state {
                State::Lobby(_) => s is None,
                State::Game(_, sc, _) => s matches Some(t) && t@ == crate::text::decimal(
                    structures::score_of_spec(sc.scores@, self.peer.id@) as nat,
                ),
            },
    {
        match &self.state {
            State::Lobby(_) => None,
            State::Game(_, scores, _) => Some(u32_to_string(score_of(scores, self.peer.id.as_str()))),
        }
    }

    /// New properties: the card shows them from now on (`change`).
    pub fn change(&mut self, state: State, peer: Player) -> (render: bool)
        ensures
            final(self).state == state,
            final(self).peer == peer,
            render,
    {
        self.state = state;
        self.peer = peer;
        true
    }
}

} // verus!

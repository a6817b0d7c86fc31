//! The game screen: the room's state as the server reports it, and what the
//! screen shows of it to this player (the word, or the word masked, or the
//! words to choose from; whether the player may draw).

use crate::structures::{self, find_player, insert_player, remove_player, same_text, Lobby, Player, PlayerMessage, State, WordState};
use crate::text;
use vstd::prelude::*;
use vstd::string::StringExecFns;

verus! {

broadcast use vstd::string::group_string_axioms;

#[verifier::external_type_specification]
#[verifier::external_body]
pub struct ExRegex(regex::Regex);

#[verifier::external_type_specification]
#[verifier::external_body]
pub struct ExRegexError(regex::Error);

/// The text that `regex::Regex::replace_all` gives back for the haystack,
/// with every match of the pattern replaced by the replacement.
pub uninterp spec fn regex_replace_all(pattern: Seq<char>, haystack: Seq<char>, replacement: Seq<char>) -> Seq<char>;

/// Whether `regex::Regex::new` accepts the pattern: its syntax is valid and
/// the compiled program stays within the default size limit.
pub uninterp spec fn regex_compiles(pattern: Seq<char>) -> bool;

/// `regex::Regex::new`: compiles the pattern with the default settings. It
/// succeeds exactly on the patterns that `regex_compiles` names, which
/// depends on the pattern alone; which patterns those are is not spelled
/// out in general (the regex syntax and the size limit). The Perl class
/// `\S` is valid syntax and its program stays far below the default limit
/// of ten megabytes, so that pattern compiles.
#[verifier::external_body]
fn compile_regex(pattern: &str) -> (r: Result<regex::Regex, regex::Error>)
    ensures
        r is Ok <==> regex_compiles(pattern@),
        pattern@ == seq!['\\', 'S'] ==> r is Ok,
{
    regex::Regex::new(pattern)
}

/// A compiled regular expression together with the pattern it was compiled
/// from. Only `WordMask::compile` builds one, from the result of
/// `Regex::new(pattern)` and that same pattern, and the fields are private:
/// so `regex` is always the compiled `pattern`, which `replace_all` rests on.
pub struct WordMask {
    regex: regex::Regex,
    pattern: String,
}

impl WordMask {
    /// The pattern that the mask's regex was compiled from.
    pub closed spec fn pattern_spec(&self) -> Seq<char> {
        self.pattern@
    }

    /// Compiles `pattern`; none when the regex crate refuses it.
    pub fn compile(pattern: &str) -> (r: Option<WordMask>)
        ensures
            r is Some <==> regex_compiles(pattern@),
            pattern@ == hide_pattern() ==> r is Some,
            r matches Some(m) ==> m.pattern_spec() == pattern@,
    {
        match compile_regex(pattern) {
            Ok(regex) => Some(WordMask { regex, pattern: pattern.to_owned() }),
            Err(_) => None,
        }
    }

    /// The mask that hides every non-whitespace character (`\S`).
    pub fn non_whitespace() -> (r: Option<WordMask>)
        ensures
            r is Some,
            r is Some <==> regex_compiles(hide_pattern()),
            r matches Some(m) ==> m.pattern_spec() == hide_pattern(),
    {
        proof {
            reveal_strlit("\\S");
            assert("\\S"@ =~= hide_pattern());
        }
        WordMask::compile("\\S")
    }

    /// `regex::Regex::replace_all` with the compiled pattern: the mask's
    /// regex was compiled from its pattern (see `WordMask`), so the result is
    /// the replacement of every match of that pattern. For the pattern `\S`
    /// and the replacement `_`, which holds no `$` group reference and is
    /// used as it is, every match is one character outside `\p{White_Space}`
    /// and the matches do not overlap: each such character becomes `_` and
    /// whitespace stays.
    #[verifier::external_body]
    fn replace_all(&self, haystack: &str, replacement: &str) -> (s: String)
        ensures
            s@ == regex_replace_all(self.pattern_spec(), haystack@, replacement@),
            self.pattern_spec() == hide_pattern() && replacement@ == seq!['_'] ==> s@ == masked_word(haystack@),
    {
        self.regex.replace_all(haystack, replacement).into_owned()
    }
}

/// The pattern that hides a word: every non-whitespace character.
pub open spec fn hide_pattern() -> Seq<char> {
    seq!['\\', 'S']
}

/// A character of the word as a guesser sees it: whitespace (the Unicode
/// `White_Space` property, which `\s` matches) stays, anything else is `_`.
pub open spec fn mask_char(c: char) -> char {
    if text::is_white_space(c) {
        c
    } else {
        '_'
    }
}

/// The word as a guesser sees it: as long as the word, its whitespace kept,
/// every other character `_`.
pub open spec fn masked_word(word: Seq<char>) -> Seq<char> {
    word.map_values(|c: char| mask_char(c))
}

/// What the word area of the screen shows.
pub enum WordPanel {
    /// Nothing: the room waits for the game.
    Hidden,
    /// This player leads and picks one of the words.
    ChooseWords(Vec<String>),
    /// Somebody else leads and is picking; the text to show.
    Choosing(String),
    /// The word, in full or masked.
    Word(String),
}

pub enum Msg {
    Ignore,
    PlayerJoin(Player),
    PlayerDisconnect(Player),
    LeaderChange(State),
    ChooseWord(String),
}

/// The game screen of this player.
pub struct Game {
    pub lobby: Lobby,
    pub selfid: String,
    pub mask: WordMask,
}

/// The name of the leader, or nothing, followed by `" is choosing the word"`.
pub open spec fn choosing_text(name: Seq<char>) -> Seq<char> {
    name + " is choosing the word"@
}

impl Game {
    pub open spec fn wf(&self) -> bool {
        &&& structures::unique_ids(self.lobby.players@)
        &&& self.mask.pattern_spec() == hide_pattern()
    }

    /// The game screen for the room; none when the mask cannot be compiled.
    pub fn create(lobby: Lobby, selfid: String) -> (r: Option<Game>)
        requires
            structures::unique_ids(lobby.players@),
        ensures
            r is Some,
            r is Some <==> regex_compiles(hide_pattern()),
            r matches Some(g) ==> g.wf() && g.lobby == lobby && g.selfid == selfid,
    {
        match WordMask::non_whitespace() {
            Some(mask) => Some(Game { lobby, selfid, mask }),
            None => None,
        }
    }

    /// Takes one message; gives back whether to redraw and what to send to
    /// the server (`update`).
    pub fn update(&mut self, msg: Msg) -> (r: (bool, Option<PlayerMessage>))
        requires
            old(self).wf(),
        ensures
            final(self).wf(),
            final(self).selfid == old(self).selfid,
            match msg {
                Msg::Ignore => r == (false, None::<PlayerMessage>) && final(self).lobby == old(self).lobby,
                Msg::LeaderChange(s) => {
                    &&& r == (true, None::<PlayerMessage>)
                    &&& final(self).lobby == Lobby { state: s, ..old(self).lobby }
                },
                Msg::PlayerJoin(p) => {
                    &&& r.0 && r.1 is None
                    &&& structures::players_map(final(self).lobby.players@) == structures::players_map(
                        old(self).lobby.players@,
                    ).insert(p.id@, p@)
                    &&& final(self).lobby.state == old(self).lobby.state
                    &&& final(self).lobby.id == old(self).lobby.id
                },
                Msg::PlayerDisconnect(p) => {
                    &&& r.0 && r.1 is None
                    &&& structures::players_map(final(self).lobby.players@) == structures::players_map(
                        old(self).lobby.players@,
                    ).remove(p.id@)
                    &&& final(self).lobby.state == old(self).lobby.state
                    &&& final(self).lobby.id == old(self).lobby.id
                },
                Msg::ChooseWord(w) => {
                    &&& r.0
                    &&& r.1 matches Some(PlayerMessage::WordChosen(x)) && x == w
                    &&& final(self).lobby == old(self).lobby
                },
            },
    {
        match msg {
            Msg::Ignore => (false, None),
            Msg::LeaderChange(state) => {
                self.lobby.state = state;
                (true, None)
            },
            Msg::PlayerJoin(p) => {
                insert_player(&mut self.lobby.players, p);
                (true, None)
            },
            Msg::PlayerDisconnect(p) => {
                remove_player(&mut self.lobby.players, p.id.as_str());
                (true, None)
            },
            Msg::ChooseWord(word) => (true, Some(PlayerMessage::WordChosen(word))),
        }
    }

    /// The seconds left in the round; 0 in the waiting room.
    pub fn time(&self) -> (t: u32)
        ensures
            t == (match self.lobby.state {
                State::Lobby(_) => 0,
                State::Game(_, _, d) => d.time,
            }),
    {
        match &self.lobby.state {
            State::Lobby(_) => 0,
            State::Game(_, _, data) => data.time,
        }
    }

    /// Whether this player may draw: it leads a round whose word is chosen.
    pub fn can_draw(&self) -> (b: bool)
        ensures
            b == (match self.lobby.state {
                State::Lobby(_) => false,
                State::Game(leader, _, d) => leader@ == self.selfid@ && d.word is Word,
            }),
    {
        match &self.lobby.state {
            State::Lobby(_) => false,
            State::Game(leader, _, data) => {
                if same_text(leader.as_str(), self.selfid.as_str()) {
                    match &data.word {
                        WordState::ChoseWords(_) => false,
                        WordState::Word(_) => true,
                    }
                } else {
                    false
                }
            },
        }
    }

    /// What the word area shows to this player.
    pub fn word_panel(&self) -> (p: WordPanel)
        requires
            self.wf(),
        ensures
            match self.lobby.state {
                State::Lobby(_) => p is Hidden,
                State::Game(leader, _, d) => match d.word {
                    WordState::ChoseWords(words) => if leader@ == self.selfid@ {
                        p matches WordPanel::ChooseWords(ws) && ws@ == words@
                    } else {
                        p matches WordPanel::Choosing(t) && t@ == choosing_text(
                            leader_name(self.lobby.players@, leader@),
                        )
                    },
                    WordState::Word(w) => if leader@ == self.selfid@ {
                        p matches WordPanel::Word(x) && x@ == w@
                    } else {
                        p matches WordPanel::Word(x) && x@ == masked_word(w@)
                    },
                },
            },
    {
        match &self.lobby.state {
            State::Lobby(_) => WordPanel::Hidden,
            State::Game(leader, _, data) => {
                let leads = same_text(leader.as_str(), self.selfid.as_str());
                match &data.word {
                    WordState::ChoseWords(words) => {
                        if leads {
                            WordPanel::ChooseWords(words.clone())
                        } else {
                            let mut t = match find_player(&self.lobby.players, leader.as_str()) {
                                Some(i) => self.lobby.players[i].name.clone(),
                                None => String::new(),
                            };
                            proof {
                                reveal_strlit(" is choosing the word");
                            }
                            t.append(" is choosing the word");
                            WordPanel::Choosing(t)
                        }
                    },
                    WordState::Word(word) => {
                        if leads {
                            WordPanel::Word(word.clone())
                        } else {
                            proof {
                                reveal_strlit("_");
                                assert("_"@ =~= seq!['_']);
                            }
                            WordPanel::Word(self.mask.replace_all(word.as_str(), "_"))
                        }
                    },
                }
            },
        }
    }
}

/// The name of the player `id`, or nothing.
pub open spec fn leader_name(ps: Seq<Player>, id: Seq<char>) -> Seq<char> {
    if exists|i: int| 0 <= i < ps.len() && (#[trigger] ps[i]).id@ == id {
        ps[choose|i: int| 0 <= i < ps.len() && (#[trigger] ps[i]).id@ == id].name@
    } else {
        Seq::empty()
    }
}

} // verus!

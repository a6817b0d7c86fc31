//! The game as the server describes it: players, the room, the state of a
//! round, and the messages exchanged with the server. Maps keyed by a
//! player's id are held as vectors in which no id occurs twice.

use vstd::prelude::*;

verus! {

broadcast use vstd::string::group_string_axioms;

#[derive(Clone, Debug)]
pub enum PlayerStatus {
    Initiated,
    JoinedLobby(String),
}

#[derive(Clone, Debug)]
pub struct Player {
    pub id: String,
    pub name: String,
    pub status: PlayerStatus,
}

pub ghost enum PlayerStatusView {
    Initiated,
    JoinedLobby(Seq<char>),
}

pub ghost struct PlayerView {
    pub id: Seq<char>,
    pub name: Seq<char>,
    pub status: PlayerStatusView,
}

impl View for PlayerStatus {
    type V = PlayerStatusView;

    open spec fn view(&self) -> PlayerStatusView {
        match self {
            PlayerStatus::Initiated => PlayerStatusView::Initiated,
            PlayerStatus::JoinedLobby(s) => PlayerStatusView::JoinedLobby(s@),
        }
    }
}

impl View for Player {
    type V = PlayerView;

    open spec fn view(&self) -> PlayerView {
        PlayerView { id: self.id@, name: self.name@, status: self.status@ }
    }
}

impl PlayerStatus {
    pub fn duplicate(&self) -> (r: PlayerStatus)
        ensures
            r@ == self@,
    {
        match self {
            PlayerStatus::Initiated => PlayerStatus::Initiated,
            PlayerStatus::JoinedLobby(s) => PlayerStatus::JoinedLobby(s.clone()),
        }
    }
}

impl Player {
    pub fn duplicate(&self) -> (r: Player)
        ensures
            r@ == self@,
    {
        Player { id: self.id.clone(), name: self.name.clone(), status: self.status.duplicate() }
    }
}

/// The score of each player that has one.
#[derive(Clone, Debug)]
pub struct Scores {
    pub scores: Vec<(String, u32)>,
}

#[derive(Clone, Debug)]
pub enum WordState {
    /// The leader picks one of these.
    ChoseWords(Vec<String>),
    Word(String),
}

/// A round in progress. The strokes drawn so far stay with the application.
#[derive(Clone, Debug)]
pub struct GameData {
    pub guessed: Vec<String>,
    pub time: u32,
    pub word: WordState,
}

#[derive(Clone, Debug)]
pub enum State {
    /// Waiting in the room; the leader's id.
    Lobby(String),
    /// A round: the leader's id, the scores, the round.
    Game(String, Scores, GameData),
}

/// A room as the server describes it.
#[derive(Clone, Debug)]
pub struct Lobby {
    pub id: String,
    pub players: Vec<Player>,
    pub state: State,
    pub draw_time: u32,
}

/// The private rooms by id.
#[derive(Clone, Debug)]
pub struct Lobbies {
    pub private_lobbies: Vec<(String, Lobby)>,
}

/// Why the server closes the connection.
#[derive(Clone, Copy, Debug)]
pub enum CloseCodes {
    WrongInit,
    CantCreateLobby,
    CantLoinLobbyDoestExist,
    NewSessionOpened,
}

/// A request to the server.
#[derive(Clone, Debug)]
pub enum PlayerMessage {
    /// This client's id and name.
    Initialize(String, String),
    JoinLobby(String),
    WordChosen(String),
    CreateLobby,
    Ping,
    Chat(String),
    StartGame,
}

/// A message from the server.
#[derive(Clone, Debug)]
pub enum SocketMessage {
    LobbyJoined(Lobby),
    PlayerJoined(Player),
    PlayerDisconnected(Player),
    Close(CloseCodes),
    Chat(String, String),
    LeaderChange(State),
    ScoreChange(State),
    TimeUpdate(State),
    GameStart(State),
    Pong,
}

/// The leader's id of a state.
pub open spec fn leader_spec(s: State) -> Seq<char> {
    match s {
        State::Lobby(id) => id@,
        State::Game(id, _, _) => id@,
    }
}

/// No id occurs twice.
pub open spec fn unique_ids(ps: Seq<Player>) -> bool {
    forall|i: int, j: int|
        0 <= i < ps.len() && 0 <= j < ps.len() && i != j ==> (#[trigger] ps[i]).id@ != (#[trigger] ps[j]).id@
}

/// The players as a map from id to player.
pub open spec fn players_map(ps: Seq<Player>) -> Map<Seq<char>, PlayerView>
    decreases ps.len(),
{
    if ps.len() == 0 {
        Map::empty()
    } else {
        players_map(ps.drop_last()).insert(ps.last().id@, ps.last()@)
    }
}

/// The score kept for `id`, or 0.
pub open spec fn score_of_spec(s: Seq<(String, u32)>, id: Seq<char>) -> u32
    decreases s.len(),
{
    if s.len() == 0 {
        0
    } else if s[0].0@ == id {
        s[0].1
    } else {
        score_of_spec(s.drop_first(), id)
    }
}

/// No id has two scores.
pub open spec fn unique_score_ids(s: Seq<(String, u32)>) -> bool {
    forall|i: int, j: int|
        0 <= i < s.len() && 0 <= j < s.len() && i != j ==> (#[trigger] s[i]).0@ != (#[trigger] s[j]).0@
}

/// The scores as a map from id to score; the first entry of an id is the
/// one that counts.
pub open spec fn scores_map(s: Seq<(String, u32)>) -> Map<Seq<char>, u32>
    decreases s.len(),
{
    if s.len() == 0 {
        Map::empty()
    } else {
        scores_map(s.drop_first()).insert(s[0].0@, s[0].1)
    }
}

impl Scores {
    /// No id has two scores: what the server's map of scores always has.
    pub open spec fn wf(&self) -> bool {
        unique_score_ids(self.scores@)
    }

    /// The scores as a map from id to score.
    pub open spec fn as_map(&self) -> Map<Seq<char>, u32> {
        scores_map(self.scores@)
    }
}

proof fn lemma_scores_map_dom(s: Seq<(String, u32)>, k: Seq<char>)
    ensures
        scores_map(s).contains_key(k) <==> exists|i: int| 0 <= i < s.len() && (#[trigger] s[i]).0@ == k,
    decreases s.len(),
{
    if s.len() > 0 {
        lemma_scores_map_dom(s.drop_first(), k);
        if exists|i: int| 0 <= i < s.len() && (#[trigger] s[i]).0@ == k {
            let i = choose|i: int| 0 <= i < s.len() && (#[trigger] s[i]).0@ == k;
            if i > 0 {
                assert(s.drop_first()[i - 1] == s[i]);
            }
        }
        if exists|i: int| 0 <= i < s.drop_first().len() && (#[trigger] s.drop_first()[i]).0@ == k {
            let i = choose|i: int| 0 <= i < s.drop_first().len() && (#[trigger] s.drop_first()[i]).0@ == k;
            assert(s[i + 1] == s.drop_first()[i]);
        }
    }
}

proof fn lemma_scores_map_index(s: Seq<(String, u32)>, i: int)
    requires
        unique_score_ids(s),
        0 <= i < s.len(),
    ensures
        scores_map(s).contains_key(s[i].0@),
        scores_map(s)[s[i].0@] == s[i].1,
    decreases s.len(),
{
    if i > 0 {
        let d = s.drop_first();
        assert(d[i - 1] == s[i]);
        assert(unique_score_ids(d)) by {
            assert forall|a: int, b: int| 0 <= a < d.len() && 0 <= b < d.len() && a != b implies (#[trigger] d[a]).0@
                != (#[trigger] d[b]).0@ by {
                assert(d[a] == s[a + 1]);
                assert(d[b] == s[b + 1]);
            }
        }
        lemma_scores_map_index(d, i - 1);
        assert(s[0].0@ != s[i].0@);
    }
}

/// What `score_of_spec` reads is the map's score, or 0.
proof fn lemma_score_of_map(s: Seq<(String, u32)>, id: Seq<char>)
    ensures
        score_of_spec(s, id) == (if scores_map(s).contains_key(id) {
            scores_map(s)[id]
        } else {
            0
        }),
    decreases s.len(),
{
    if s.len() > 0 {
        lemma_score_of_map(s.drop_first(), id);
    }
}

pub open spec fn contains_id(s: Seq<String>, id: Seq<char>) -> bool {
    exists|i: int| 0 <= i < s.len() && (#[trigger] s[i])@ == id
}

impl State {
    /// The leader's id.
    pub fn leader(&self) -> (r: &str)
        ensures
            r@ == leader_spec(*self),
    {
        match self {
            State::Lobby(id) => id.as_str(),
            State::Game(id, _, _) => id.as_str(),
        }
    }
}

impl CloseCodes {
    /// The name of the code, as it is printed.
    pub fn describe(&self) -> (s: &'static str)
        ensures
            s@ == (match *self {
                CloseCodes::WrongInit => "WrongInit"@,
                CloseCodes::CantCreateLobby => "CantCreateLobby"@,
                CloseCodes::CantLoinLobbyDoestExist => "CantLoinLobbyDoestExist"@,
                CloseCodes::NewSessionOpened => "NewSessionOpened"@,
            }),
    {
        match self {
            CloseCodes::WrongInit => "WrongInit",
            CloseCodes::CantCreateLobby => "CantCreateLobby",
            CloseCodes::CantLoinLobbyDoestExist => "CantLoinLobbyDoestExist",
            CloseCodes::NewSessionOpened => "NewSessionOpened",
        }
    }
}

impl WordState {
    /// No words offered yet.
    pub fn default_state() -> (r: WordState)
        ensures
            r matches WordState::ChoseWords(v) && v@.len() == 0,
    {
        WordState::ChoseWords(Vec::new())
    }
}

/// Two strings are equal.
pub fn same_text(a: &str, b: &str) -> (r: bool)
    ensures
        r == (a@ == b@),
{
    let av = crate::text::chars_of(a);
    let bv = crate::text::chars_of(b);
    if av.len() != bv.len() {
        return false;
    }
    let mut i: usize = 0;
    while i < av.len()
        invariant
            av.len() == bv.len(),
            i <= av.len(),
            av@ == a@,
            bv@ == b@,
            forall|j: int| 0 <= j < i ==> av@[j] == bv@[j],
        decreases av.len() - i,
    {
        if av[i] != bv[i] {
            return false;
        }
        i = i + 1;
    }
    assert(av@ =~= bv@);
    true
}

/// The position of the player `id`, if there is one.
pub fn find_player(ps: &Vec<Player>, id: &str) -> (r: Option<usize>)
    ensures
        match r {
            Some(i) => i < ps@.len() && ps@[i as int].id@ == id@,
            None => forall|i: int| 0 <= i < ps@.len() ==> (#[trigger] ps@[i]).id@ != id@,
        },
{
    let mut i: usize = 0;
    while i < ps.len()
        invariant
            i <= ps.len(),
            forall|j: int| 0 <= j < i ==> (#[trigger] ps@[j]).id@ != id@,
        decreases ps.len() - i,
    {
        if same_text(ps[i].id.as_str(), id) {
            return Some(i);
        }
        i = i + 1;
    }
    None
}

proof fn lemma_players_map_dom(ps: Seq<Player>, k: Seq<char>)
    ensures
        players_map(ps).contains_key(k) <==> exists|i: int| 0 <= i < ps.len() && (#[trigger] ps[i]).id@ == k,
    decreases ps.len(),
{
    if ps.len() > 0 {
        lemma_players_map_dom(ps.drop_last(), k);
        if exists|i: int| 0 <= i < ps.len() && (#[trigger] ps[i]).id@ == k {
            let i = choose|i: int| 0 <= i < ps.len() && (#[trigger] ps[i]).id@ == k;
            if i < ps.len() - 1 {
                assert(ps.drop_last()[i] == ps[i]);
            }
        }
        if exists|i: int| 0 <= i < ps.drop_last().len() && (#[trigger] ps.drop_last()[i]).id@ == k {
            let i = choose|i: int| 0 <= i < ps.drop_last().len() && (#[trigger] ps.drop_last()[i]).id@ == k;
            assert(ps[i] == ps.drop_last()[i]);
        }
    }
}

proof fn lemma_players_map_index(ps: Seq<Player>, i: int)
    requires
        unique_ids(ps),
        0 <= i < ps.len(),
    ensures
        players_map(ps).contains_key(ps[i].id@),
        players_map(ps)[ps[i].id@] == ps[i]@,
    decreases ps.len(),
{
    if i < ps.len() - 1 {
        let d = ps.drop_last();
        assert(d[i] == ps[i]);
        assert(unique_ids(d)) by {
            assert forall|a: int, b: int| 0 <= a < d.len() && 0 <= b < d.len() && a != b implies (#[trigger] d[a]).id@
                != (#[trigger] d[b]).id@ by {
                assert(d[a] == ps[a]);
                assert(d[b] == ps[b]);
            }
        }
        lemma_players_map_index(d, i);
        assert(ps.last().id@ != ps[i].id@) by {
            assert(ps.last() == ps[ps.len() - 1]);
        }
    }
}

/// Files the player under its id: a player with the same id is replaced
/// (`players.insert(p.id.clone(), p)`).
pub fn insert_player(ps: &mut Vec<Player>, p: Player)
    requires
        unique_ids(old(ps)@),
    ensures
        unique_ids(final(ps)@),
        players_map(final(ps)@) == players_map(old(ps)@).insert(p.id@, p@),
{
    match find_player(ps, p.id.as_str()) {
        Some(i) => {
            let ghost before = ps@;
            ps.set(i, p);
            proof {
                assert(unique_ids(ps@)) by {
                    assert forall|a: int, b: int| 0 <= a < ps@.len() && 0 <= b < ps@.len() && a != b implies (#[trigger] ps@[a]).id@
                        != (#[trigger] ps@[b]).id@ by {
                        if a != i && b != i {
                            assert(ps@[a] == before[a]);
                            assert(ps@[b] == before[b]);
                        } else if a == i {
                            assert(ps@[b] == before[b]);
                            assert(before[i as int].id@ == p.id@);
                        } else {
                            assert(ps@[a] == before[a]);
                            assert(before[i as int].id@ == p.id@);
                        }
                    }
                }
                assert forall|k: Seq<char>| #[trigger] players_map(ps@).contains_key(k) <==> players_map(before).insert(p.id@, p@).contains_key(k) by {
                    lemma_players_map_dom(ps@, k);
                    lemma_players_map_dom(before, k);
                    if exists|j: int| 0 <= j < before.len() && (#[trigger] before[j]).id@ == k {
                        let j = choose|j: int| 0 <= j < before.len() && (#[trigger] before[j]).id@ == k;
                        if j == i {
                            assert(ps@[j].id@ == k);
                        } else {
                            assert(ps@[j] == before[j]);
                        }
                    }
                    if exists|j: int| 0 <= j < ps@.len() && (#[trigger] ps@[j]).id@ == k {
                        let j = choose|j: int| 0 <= j < ps@.len() && (#[trigger] ps@[j]).id@ == k;
                        if j != i {
                            assert(ps@[j] == before[j]);
                        }
                    }
                }
                assert forall|k: Seq<char>| #[trigger] players_map(ps@).contains_key(k) implies players_map(ps@)[k]
                    == players_map(before).insert(p.id@, p@)[k] by {
                    lemma_players_map_dom(ps@, k);
                    let j = choose|j: int| 0 <= j < ps@.len() && (#[trigger] ps@[j]).id@ == k;
                    lemma_players_map_index(ps@, j);
                    if j != i {
                        assert(ps@[j] == before[j]);
                        lemma_players_map_index(before, j);
                    }
                }
                assert(players_map(ps@) =~= players_map(before).insert(p.id@, p@));
            }
        },
        None => {
            let ghost before = ps@;
            ps.push(p);
            proof {
                assert(ps@.drop_last() =~= before);
                assert(unique_ids(ps@)) by {
                    assert forall|a: int, b: int| 0 <= a < ps@.len() && 0 <= b < ps@.len() && a != b implies (#[trigger] ps@[a]).id@
                        != (#[trigger] ps@[b]).id@ by {
                        if a < before.len() {
                            assert(ps@[a] == before[a]);
                        }
                        if b < before.len() {
                            assert(ps@[b] == before[b]);
                        }
                    }
                }
            }
        },
    }
}

/// Removes the player `id`, if there is one (`players.remove(&id)`).
pub fn remove_player(ps: &mut Vec<Player>, id: &str)
    requires
        unique_ids(old(ps)@),
    ensures
        unique_ids(final(ps)@),
        players_map(final(ps)@) == players_map(old(ps)@).remove(id@),
{
    match find_player(ps, id) {
        Some(i) => {
            let ghost before = ps@;
            ps.remove(i);
            proof {
                assert(unique_ids(ps@)) by {
                    assert forall|a: int, b: int| 0 <= a < ps@.len() && 0 <= b < ps@.len() && a != b implies (#[trigger] ps@[a]).id@
                        != (#[trigger] ps@[b]).id@ by {
                        let a1 = if a < i { a } else { a + 1 };
                        let b1 = if b < i { b } else { b + 1 };
                        assert(ps@[a] == before[a1]);
                        assert(ps@[b] == before[b1]);
                    }
                }
                assert forall|k: Seq<char>| #[trigger] players_map(ps@).contains_key(k) <==> players_map(before).remove(id@).contains_key(k) by {
                    lemma_players_map_dom(ps@, k);
                    lemma_players_map_dom(before, k);
                    if exists|j: int| 0 <= j < before.len() && (#[trigger] before[j]).id@ == k {
                        let j = choose|j: int| 0 <= j < before.len() && (#[trigger] before[j]).id@ == k;
                        if j < i {
                            assert(ps@[j] == before[j]);
                        } else if j > i {
                            assert(ps@[j - 1] == before[j]);
                        }
                    }
                    if exists|j: int| 0 <= j < ps@.len() && (#[trigger] ps@[j]).id@ == k {
                        let j = choose|j: int| 0 <= j < ps@.len() && (#[trigger] ps@[j]).id@ == k;
                        let j1 = if j < i { j } else { j + 1 };
                        assert(ps@[j] == before[j1]);
                        assert(j1 != i as int || k != id@);
                    }
                }
                assert forall|k: Seq<char>| #[trigger] players_map(ps@).contains_key(k) implies players_map(ps@)[k]
                    == players_map(before).remove(id@)[k] by {
                    lemma_players_map_dom(ps@, k);
                    let j = choose|j: int| 0 <= j < ps@.len() && (#[trigger] ps@[j]).id@ == k;
                    lemma_players_map_index(ps@, j);
                    let j1 = if j < i { j } else { j + 1 };
                    assert(ps@[j] == before[j1]);
                    lemma_players_map_index(before, j1);
                }
                assert(players_map(ps@) =~= players_map(before).remove(id@));
            }
        },
        None => {
            proof {
                assert forall|k: Seq<char>| #[trigger] players_map(ps@).contains_key(k) implies k != id@ by {
                    lemma_players_map_dom(ps@, k);
                }
                assert(players_map(ps@) =~= players_map(ps@).remove(id@));
            }
        },
    }
}

/// The score of the player `id` (`scores.get(&id).unwrap_or(&0)`).
pub fn score_of(scores: &Scores, id: &str) -> (r: u32)
    ensures
        r == score_of_spec(scores.scores@, id@),
        r == (if scores.as_map().contains_key(id@) {
            scores.as_map()[id@]
        } else {
            0
        }),
{
    proof {
        lemma_score_of_map(scores.scores@, id@);
    }
    let mut i: usize = 0;
    assert(scores.scores@.skip(0) =~= scores.scores@);
    while i < scores.scores.len()
        invariant
            i <= scores.scores.len(),
            score_of_spec(scores.scores@, id@) == score_of_spec(scores.scores@.skip(i as int), id@),
            score_of_spec(scores.scores@, id@) == (if scores.as_map().contains_key(id@) {
                scores.as_map()[id@]
            } else {
                0
            }),
        decreases scores.scores.len() - i,
    {
        let ghost rest = scores.scores@.skip(i as int);
        assert(rest[0] == scores.scores@[i as int]);
        assert(rest.drop_first() =~= scores.scores@.skip(i + 1));
        if same_text(scores.scores[i].0.as_str(), id) {
            return scores.scores[i].1;
        }
        i = i + 1;
    }
    assert(scores.scores@.skip(i as int) =~= Seq::<(String, u32)>::empty());
    0
}

/// True when no id occurs twice among the players.
pub fn has_unique_ids(ps: &Vec<Player>) -> (b: bool)
    ensures
        b == unique_ids(ps@),
{
    let mut i: usize = 0;
    while i < ps.len()
        invariant
            i <= ps.len(),
            forall|a: int, c: int| 0 <= a < i && 0 <= c < ps.len() && a != c ==> (#[trigger] ps@[a]).id@
                != (#[trigger] ps@[c]).id@,
        decreases ps.len() - i,
    {
        let mut j: usize = 0;
        while j < ps.len()
            invariant
                i < ps.len(),
                j <= ps.len(),
                forall|a: int, c: int| 0 <= a < i && 0 <= c < ps.len() && a != c ==> (#[trigger] ps@[a]).id@
                    != (#[trigger] ps@[c]).id@,
                forall|c: int| 0 <= c < j && c != i ==> ps@[i as int].id@ != (#[trigger] ps@[c]).id@,
            decreases ps.len() - j,
        {
            if j != i && same_text(ps[i].id.as_str(), ps[j].id.as_str()) {
                return false;
            }
            j = j + 1;
        }
        i = i + 1;
    }
    true
}

impl Scores {
    /// No scores yet.
    pub fn new() -> (s: Scores)
        ensures
            s.wf(),
            s.as_map() == Map::<Seq<char>, u32>::empty(),
            s.scores@.len() == 0,
    {
        Scores { scores: Vec::new() }
    }

    /// Sets the score of `id`, replacing the one it had
    /// (`scores.insert(id, score)`).
    pub fn insert(&mut self, id: String, score: u32)
        requires
            old(self).wf(),
        ensures
            final(self).wf(),
            final(self).as_map() == old(self).as_map().insert(id@, score),
    {
        let ghost before = self.scores@;
        let mut i: usize = 0;
        while i < self.scores.len()
            invariant
                i <= self.scores.len(),
                self.scores@ == before,
                forall|j: int| 0 <= j < i ==> (#[trigger] before[j]).0@ != id@,
            ensures
                i <= self.scores.len(),
                self.scores@ == before,
                forall|j: int| 0 <= j < i ==> (#[trigger] before[j]).0@ != id@,
                i < self.scores.len() ==> before[i as int].0@ == id@,
            decreases self.scores.len() - i,
        {
            if same_text(self.scores[i].0.as_str(), id.as_str()) {
                break;
            }
            i = i + 1;
        }
        let ghost k = i as int;
        if i < self.scores.len() {
            let ghost kid = before[k].0@;
            self.scores.set(i, (id, score));
            let ghost after = self.scores@;
            proof {
                assert(kid == after[k].0@);
                assert(unique_score_ids(after)) by {
                    assert forall|a: int, b: int| 0 <= a < after.len() && 0 <= b < after.len() && a != b implies (#[trigger] after[a]).0@
                        != (#[trigger] after[b]).0@ by {
                        if a != k {
                            assert(after[a] == before[a]);
                        }
                        if b != k {
                            assert(after[b] == before[b]);
                        }
                    }
                }
                assert forall|x: Seq<char>| #[trigger] scores_map(after).contains_key(x) <==> scores_map(before).insert(kid, score).contains_key(x) by {
                    lemma_scores_map_dom(after, x);
                    lemma_scores_map_dom(before, x);
                    if exists|j: int| 0 <= j < before.len() && (#[trigger] before[j]).0@ == x {
                        let j = choose|j: int| 0 <= j < before.len() && (#[trigger] before[j]).0@ == x;
                        if j != k {
                            assert(after[j] == before[j]);
                        }
                    }
                    if exists|j: int| 0 <= j < after.len() && (#[trigger] after[j]).0@ == x {
                        let j = choose|j: int| 0 <= j < after.len() && (#[trigger] after[j]).0@ == x;
                        if j != k {
                            assert(after[j] == before[j]);
                        }
                    }
                }
                assert forall|x: Seq<char>| #[trigger] scores_map(after).contains_key(x) implies scores_map(after)[x]
                    == scores_map(before).insert(kid, score)[x] by {
                    lemma_scores_map_dom(after, x);
                    let j = choose|j: int| 0 <= j < after.len() && (#[trigger] after[j]).0@ == x;
                    lemma_scores_map_index(after, j);
                    if j != k {
                        assert(after[j] == before[j]);
                        lemma_scores_map_index(before, j);
                    }
                }
                assert(scores_map(after) =~= scores_map(before).insert(kid, score));
            }
        } else {
            self.scores.push((id, score));
            let ghost after = self.scores@;
            proof {
                let n = before.len() as int;
                assert(after[n].0@ == id@);
                assert(unique_score_ids(after)) by {
                    assert forall|a: int, b: int| 0 <= a < after.len() && 0 <= b < after.len() && a != b implies (#[trigger] after[a]).0@
                        != (#[trigger] after[b]).0@ by {
                        if a < n {
                            assert(after[a] == before[a]);
                        }
                        if b < n {
                            assert(after[b] == before[b]);
                        }
                    }
                }
                assert forall|x: Seq<char>| #[trigger] scores_map(after).contains_key(x) <==> scores_map(before).insert(id@, score).contains_key(x) by {
                    lemma_scores_map_dom(after, x);
                    lemma_scores_map_dom(before, x);
                    if exists|j: int| 0 <= j < before.len() && (#[trigger] before[j]).0@ == x {
                        let j = choose|j: int| 0 <= j < before.len() && (#[trigger] before[j]).0@ == x;
                        assert(after[j] == before[j]);
                    }
                    if exists|j: int| 0 <= j < after.len() && (#[trigger] after[j]).0@ == x {
                        let j = choose|j: int| 0 <= j < after.len() && (#[trigger] after[j]).0@ == x;
                        if j < n {
                            assert(after[j] == before[j]);
                        }
                    }
                }
                assert forall|x: Seq<char>| #[trigger] scores_map(after).contains_key(x) implies scores_map(after)[x]
                    == scores_map(before).insert(id@, score)[x] by {
                    lemma_scores_map_dom(after, x);
                    let j = choose|j: int| 0 <= j < after.len() && (#[trigger] after[j]).0@ == x;
                    lemma_scores_map_index(after, j);
                    if j < n {
                        assert(after[j] == before[j]);
                        lemma_scores_map_index(before, j);
                    }
                }
                assert(scores_map(after) =~= scores_map(before).insert(id@, score));
            }
        }
    }
}

/// True when `id` is among `ids`.
pub fn has_id(ids: &Vec<String>, id: &str) -> (r: bool)
    ensures
        r == contains_id(ids@, id@),
{
    let mut i: usize = 0;
    while i < ids.len()
        invariant
            i <= ids.len(),
            forall|j: int| 0 <= j < i ==> (#[trigger] ids@[j])@ != id@,
        decreases ids.len() - i,
    {
        if same_text(ids[i].as_str(), id) {
            return true;
        }
        i = i + 1;
    }
    false
}


/// A player who joins and then leaves leaves the room as it was, when that
/// id was not there before.
pub proof fn lemma_join_then_leave(ps: Seq<Player>, p: Player)
    requires
        !players_map(ps).contains_key(p.id@),
    ensures
        players_map(ps).insert(p.id@, p@).remove(p.id@) == players_map(ps),
{
    assert(players_map(ps).insert(p.id@, p@).remove(p.id@) =~= players_map(ps));
}

} // verus!

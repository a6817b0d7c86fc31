//! The peer-to-peer lobby that each client keeps: who is in the room, who is
//! ready, whose turn it is, the current word and who has guessed it.

use std::collections::HashMap;
use vstd::prelude::*;
use vstd::std_specs::hash::spec_keys_iter;
use vstd::std_specs::iter::IteratorSpec;

verus! {

broadcast use vstd::std_specs::hash::group_hash_axioms;

/// One player of the lobby. `connected` and `has_channel` stand for the
/// browser's peer connection and data channel, which the application holds.
#[derive(Clone, Debug)]
pub struct Peer {
    pub name: String,
    pub id: u32,
    pub is_self: bool,
    pub is_ready: bool,
    pub connected: bool,
    pub has_channel: bool,
    pub guessed: bool,
}

pub ghost struct PeerView {
    pub name: Seq<char>,
    pub id: u32,
    pub is_self: bool,
    pub is_ready: bool,
    pub connected: bool,
    pub has_channel: bool,
    pub guessed: bool,
}

impl View for Peer {
    type V = PeerView;

    open spec fn view(&self) -> PeerView {
        PeerView {
            name: self.name@,
            id: self.id,
            is_self: self.is_self,
            is_ready: self.is_ready,
            connected: self.connected,
            has_channel: self.has_channel,
            guessed: self.guessed,
        }
    }
}

/// The lobby as one client sees it.
#[derive(Clone, Debug)]
pub struct Lobby {
    pub selfid: u32,
    pub peers: HashMap<u32, Peer>,
    pub roomid: String,
    pub sealed: bool,
    pub turn: u32,
    pub word: String,
}

pub ghost struct LobbyView {
    pub selfid: u32,
    pub peers: Map<u32, PeerView>,
    pub roomid: Seq<char>,
    pub sealed: bool,
    pub turn: u32,
    pub word: Seq<char>,
}

pub open spec fn peers_view(m: Map<u32, Peer>) -> Map<u32, PeerView> {
    m.map_values(|p: Peer| p@)
}

impl View for Lobby {
    type V = LobbyView;

    open spec fn view(&self) -> LobbyView {
        LobbyView {
            selfid: self.selfid,
            peers: peers_view(self.peers@),
            roomid: self.roomid@,
            sealed: self.sealed,
            turn: self.turn,
            word: self.word@,
        }
    }
}

impl LobbyView {
    /// Every peer is filed under its own id.
    pub open spec fn wf(self) -> bool {
        forall|k: u32| #[trigger] self.peers.contains_key(k) ==> self.peers[k].id == k
    }

    pub open spec fn with_peers(self, peers: Map<u32, PeerView>) -> LobbyView {
        LobbyView { peers, ..self }
    }
}

/// The peer that stands for this client.
pub open spec fn self_peer_view(id: u32, name: Seq<char>) -> PeerView {
    PeerView {
        name,
        id,
        is_self: true,
        is_ready: true,
        connected: false,
        has_channel: false,
        guessed: false,
    }
}

/// A peer that has just been announced by the server.
pub open spec fn new_peer_view(id: u32) -> PeerView {
    PeerView {
        name: Seq::empty(),
        id,
        is_self: false,
        is_ready: false,
        connected: false,
        has_channel: false,
        guessed: false,
    }
}

/// The peers that have said their name.
pub open spec fn ready_only(m: Map<u32, PeerView>) -> Map<u32, PeerView> {
    m.restrict(m.dom().filter(|k: u32| m[k].is_ready))
}

/// The peers with nobody marked as having guessed.
pub open spec fn none_guessed(m: Map<u32, PeerView>) -> Map<u32, PeerView> {
    m.map_values(|p: PeerView| PeerView { guessed: false, ..p })
}

impl Peer {
    /// A copy of this peer.
    pub fn duplicate(&self) -> (r: Peer)
        ensures
            r@ == self@,
    {
        Peer {
            name: self.name.clone(),
            id: self.id,
            is_self: self.is_self,
            is_ready: self.is_ready,
            connected: self.connected,
            has_channel: self.has_channel,
            guessed: self.guessed,
        }
    }

    /// The peer that stands for this client.
    pub fn new_self(id: u32, name: String) -> (r: Peer)
        ensures
            r@ == self_peer_view(id, name@),
    {
        Peer {
            name,
            id,
            is_self: true,
            is_ready: true,
            connected: false,
            has_channel: false,
            guessed: false,
        }
    }

    /// A peer that the server has just announced.
    pub fn new_remote(id: u32) -> (r: Peer)
        ensures
            r@ == new_peer_view(id),
    {
        Peer {
            name: String::new(),
            id,
            is_self: false,
            is_ready: false,
            connected: false,
            has_channel: false,
            guessed: false,
        }
    }
}

impl Lobby {
    /// An empty lobby for the room `roomid`, before this client has an id.
    pub fn new_room(roomid: String) -> (r: Lobby)
        ensures
            r@ == (LobbyView {
                selfid: 0,
                peers: Map::empty(),
                roomid: roomid@,
                sealed: false,
                turn: 0,
                word: Seq::empty(),
            }),
            r@.wf(),
    {
        let r = Lobby {
            selfid: 0,
            peers: HashMap::new(),
            roomid,
            sealed: false,
            turn: 0,
            word: String::new(),
        };
        assert(r@.peers =~= Map::empty());
        r
    }

    /// A lobby that holds only this client, under the id `selfid`.
    pub fn new_with_self(selfid: u32, name: String) -> (r: Lobby)
        ensures
            r@ == (LobbyView {
                selfid,
                peers: map![selfid => self_peer_view(selfid, name@)],
                roomid: Seq::empty(),
                sealed: false,
                turn: 0,
                word: Seq::empty(),
            }),
            r@.wf(),
    {
        let mut peers: HashMap<u32, Peer> = HashMap::new();
        peers.insert(selfid, Peer::new_self(selfid, name));
        let r = Lobby { selfid, peers, roomid: String::new(), sealed: false, turn: 0, word: String::new() };
        assert(r@.peers =~= map![selfid => self_peer_view(selfid, r@.peers[selfid].name)]);
        r
    }

    /// A copy of this lobby.
    pub fn snapshot(&self) -> (r: Lobby)
        ensures
            r@ == self@,
    {
        Lobby {
            selfid: self.selfid,
            peers: self.peers.clone(),
            roomid: self.roomid.clone(),
            sealed: self.sealed,
            turn: self.turn,
            word: self.word.clone(),
        }
    }

    /// The ids of all peers, each once.
    pub fn peer_ids(&self) -> (ids: Vec<u32>)
        ensures
            ids@.no_duplicates(),
            forall|k: u32| #[trigger] ids@.contains(k) <==> self@.peers.contains_key(k),
    {
        let mut ids: Vec<u32> = Vec::new();
        for k in it: self.peers.keys()
            invariant
                it.seq() == spec_keys_iter(&self.peers).remaining(),
                ids@ == it.seq().take(it.index() as int).unref(),
        {
            ids.push(*k);
        }
        proof {
            let all = spec_keys_iter(&self.peers).remaining();
            assert(ids@ =~= all.unref());
            assert forall|k: u32| #[trigger] ids@.contains(k) <==> self@.peers.contains_key(k) by {
                if ids@.contains(k) {
                    assert(ids@.to_set().contains(k));
                }
                if self@.peers.contains_key(k) {
                    assert(ids@.to_set().contains(k));
                }
            }
            assert(ids@.no_duplicates()) by {
                assert forall|i: int, j: int| 0 <= i < ids@.len() && 0 <= j < ids@.len() && i != j
                    implies ids@[i] != ids@[j] by {
                    assert(ids@[i] == *all[i]);
                    assert(ids@[j] == *all[j]);
                }
            }
        }
        ids
    }

    /// Files `p` under `id`, replacing any peer that was there.
    pub fn put_peer(&mut self, id: u32, p: Peer)
        ensures
            final(self)@ == old(self)@.with_peers(old(self)@.peers.insert(id, p@)),
    {
        self.peers.insert(id, p);
        assert(self@.peers =~= old(self)@.peers.insert(id, p@));
    }

    /// Takes the peer filed under `id` out of the lobby.
    pub fn take_peer(&mut self, id: u32) -> (r: Option<Peer>)
        ensures
            final(self)@ == old(self)@.with_peers(old(self)@.peers.remove(id)),
            match r {
                Some(p) => old(self)@.peers.contains_key(id) && p@ == old(self)@.peers[id],
                None => !old(self)@.peers.contains_key(id),
            },
    {
        let r = self.peers.remove(&id);
        assert(self@.peers =~= old(self)@.peers.remove(id));
        r
    }

    /// Marks the peer `id` as having guessed the word; false when there is
    /// no such peer.
    pub fn mark_guessed(&mut self, id: u32) -> (found: bool)
        ensures
            found == old(self)@.peers.contains_key(id),
            final(self)@ == (if found {
                old(self)@.with_peers(
                    old(self)@.peers.insert(id, PeerView { guessed: true, ..old(self)@.peers[id] }),
                )
            } else {
                old(self)@
            }),
    {
        match self.take_peer(id) {
            Some(mut p) => {
                p.guessed = true;
                self.put_peer(id, p);
                assert(self@.peers =~= old(self)@.peers.insert(
                    id,
                    PeerView { guessed: true, ..old(self)@.peers[id] },
                ));
                true
            },
            None => {
                assert(self@.peers =~= old(self)@.peers);
                false
            },
        }
    }

    /// Records the name of the peer `id`, which makes it ready.
    pub fn mark_ready(&mut self, id: u32, name: String)
        ensures
            final(self)@ == (if old(self)@.peers.contains_key(id) {
                old(self)@.with_peers(
                    old(self)@.peers.insert(
                        id,
                        PeerView { name: name@, is_ready: true, ..old(self)@.peers[id] },
                    ),
                )
            } else {
                old(self)@
            }),
    {
        match self.take_peer(id) {
            Some(mut p) => {
                p.name = name;
                p.is_ready = true;
                self.put_peer(id, p);
                assert(self@.peers =~= old(self)@.peers.insert(
                    id,
                    PeerView { name: self@.peers[id].name, is_ready: true, ..old(self)@.peers[id] },
                ));
            },
            None => {
                assert(self@.peers =~= old(self)@.peers);
            },
        }
    }

    /// Records that the peer `id` now has a peer connection.
    pub fn mark_connected(&mut self, id: u32)
        ensures
            final(self)@ == (if old(self)@.peers.contains_key(id) {
                old(self)@.with_peers(
                    old(self)@.peers.insert(id, PeerView { connected: true, ..old(self)@.peers[id] }),
                )
            } else {
                old(self)@
            }),
    {
        match self.take_peer(id) {
            Some(mut p) => {
                p.connected = true;
                self.put_peer(id, p);
                assert(self@.peers =~= old(self)@.peers.insert(
                    id,
                    PeerView { connected: true, ..old(self)@.peers[id] },
                ));
            },
            None => {
                assert(self@.peers =~= old(self)@.peers);
            },
        }
    }

    /// Records that the peer `id` now has a data channel; gives back whether
    /// it has a peer connection, or none when there is no such peer.
    pub fn mark_channel(&mut self, id: u32) -> (r: Option<bool>)
        ensures
            r == (if old(self)@.peers.contains_key(id) {
                Some(old(self)@.peers[id].connected)
            } else {
                None
            }),
            final(self)@ == (if old(self)@.peers.contains_key(id) {
                old(self)@.with_peers(
                    old(self)@.peers.insert(id, PeerView { has_channel: true, ..old(self)@.peers[id] }),
                )
            } else {
                old(self)@
            }),
    {
        match self.take_peer(id) {
            Some(mut p) => {
                p.has_channel = true;
                let c = p.connected;
                self.put_peer(id, p);
                assert(self@.peers =~= old(self)@.peers.insert(
                    id,
                    PeerView { has_channel: true, ..old(self)@.peers[id] },
                ));
                Some(c)
            },
            None => {
                assert(self@.peers =~= old(self)@.peers);
                None
            },
        }
    }

    /// Clears the guessed mark of every peer.
    pub fn reset_guessed(&mut self)
        ensures
            final(self)@ == old(self)@.with_peers(none_guessed(old(self)@.peers)),
    {
        let ids = self.peer_ids();
        let ghost old_peers = self@.peers;
        let mut i: usize = 0;
        while i < ids.len()
            invariant
                0 <= i <= ids.len(),
                ids@.no_duplicates(),
                forall|k: u32| #[trigger] ids@.contains(k) <==> old_peers.contains_key(k),
                self@.peers.dom() == old_peers.dom(),
                self@ == old(self)@.with_peers(self@.peers),
                old_peers == old(self)@.peers,
                forall|j: int|
                    0 <= j < i ==> self@.peers[#[trigger] ids@[j]] == (PeerView {
                        guessed: false,
                        ..old_peers[ids@[j]]
                    }),
                forall|j: int| i <= j < ids.len() ==> self@.peers[#[trigger] ids@[j]] == old_peers[ids@[j]],
            decreases ids.len() - i,
        {
            let id = ids[i];
            assert(ids@.contains(id));
            match self.take_peer(id) {
                Some(mut p) => {
                    p.guessed = false;
                    self.put_peer(id, p);
                },
                None => {},
            }
            assert forall|j: int| i + 1 <= j < ids.len() implies self@.peers[#[trigger] ids@[j]]
                == old_peers[ids@[j]] by {
                assert(ids@[j] != ids@[i as int]);
            }
            assert forall|j: int| 0 <= j < i implies self@.peers[#[trigger] ids@[j]] == (PeerView {
                guessed: false,
                ..old_peers[ids@[j]]
            }) by {
                assert(ids@[j] != ids@[i as int]);
            }
            assert(self@.peers.dom() =~= old_peers.dom());
            i = i + 1;
        }
        assert(self@.peers =~= none_guessed(old_peers)) by {
            assert forall|k: u32| #[trigger] self@.peers.contains_key(k) implies self@.peers[k]
                == none_guessed(old_peers)[k] by {
                assert(ids@.contains(k));
                let j = ids@.index_of(k);
                assert(ids@[j] == k);
            }
        }
    }

    /// Drops every peer that has not said its name yet (`remove_non_ready`).
    pub fn remove_non_ready(&mut self)
        ensures
            final(self)@ == old(self)@.with_peers(ready_only(old(self)@.peers)),
    {
        let ids = self.peer_ids();
        let ghost old_peers = self@.peers;
        let mut torm: Vec<u32> = Vec::new();
        let mut i: usize = 0;
        while i < ids.len()
            invariant
                0 <= i <= ids.len(),
                self@.peers == old_peers,
                ids@.no_duplicates(),
                forall|k: u32| #[trigger] ids@.contains(k) <==> old_peers.contains_key(k),
                forall|k: u32|
                    #[trigger] torm@.contains(k) <==> (ids@.take(i as int).contains(k)
                        && !old_peers[k].is_ready),
            decreases ids.len() - i,
        {
            let id = ids[i];
            assert(ids@.contains(id));
            let ready = match self.peers.get(&id) {
                Some(p) => p.is_ready,
                None => true,
            };
            let ghost prev = torm@;
            if !ready {
                torm.push(id);
            }
            assert(ids@.take(i + 1) =~= ids@.take(i as int).push(id));
            assert(ready == old_peers[id].is_ready);
            assert forall|k: u32| #[trigger] torm@.contains(k) <==> (ids@.take(i + 1).contains(k)
                && !old_peers[k].is_ready) by {
                let t0 = ids@.take(i as int);
                let t1 = ids@.take(i + 1);
                if k == id {
                    assert(t1[i as int] == k);
                    assert(!t0.contains(k)) by {
                        if t0.contains(k) {
                            let m = t0.index_of(k);
                            assert(ids@[m] == ids@[i as int]);
                        }
                    }
                    assert(!prev.contains(k));
                    if !ready {
                        assert(torm@[torm@.len() - 1] == k);
                    } else {
                        assert(torm@ == prev);
                    }
                } else {
                    assert(t1.contains(k) <==> t0.contains(k)) by {
                        if t1.contains(k) {
                            let m = t1.index_of(k);
                            assert(t0[m] == k);
                        }
                        if t0.contains(k) {
                            let m = t0.index_of(k);
                            assert(t1[m] == k);
                        }
                    }
                    assert(torm@.contains(k) <==> prev.contains(k)) by {
                        if !ready {
                            if torm@.contains(k) {
                                let m = torm@.index_of(k);
                                assert(prev[m] == k);
                            }
                            if prev.contains(k) {
                                let m = prev.index_of(k);
                                assert(torm@[m] == k);
                            }
                        }
                    }
                }
            }
            i = i + 1;
        }
        assert(ids@.take(ids@.len() as int) =~= ids@);
        let mut r: usize = 0;
        while r < torm.len()
            invariant
                0 <= r <= torm.len(),
                self@ == old(self)@.with_peers(self@.peers),
                old_peers == old(self)@.peers,
                forall|k: u32|
                    #[trigger] self@.peers.contains_key(k) <==> (old_peers.contains_key(k)
                        && !torm@.take(r as int).contains(k)),
                forall|k: u32| #[trigger] self@.peers.contains_key(k) ==> self@.peers[k] == old_peers[k],
            decreases torm.len() - r,
        {
            let id = torm[r];
            let ghost prev_peers = self@.peers;
            self.take_peer(id);
            assert(self@.peers == prev_peers.remove(id));
            assert(torm@.take(r + 1) =~= torm@.take(r as int).push(id));
            assert forall|k: u32| #[trigger] self@.peers.contains_key(k) <==> (old_peers.contains_key(k)
                && !torm@.take(r + 1).contains(k)) by {
                let t0 = torm@.take(r as int);
                let t1 = torm@.take(r + 1);
                if k == id {
                    assert(t1[r as int] == k);
                } else {
                    assert(t1.contains(k) <==> t0.contains(k)) by {
                        if t1.contains(k) {
                            let m = t1.index_of(k);
                            assert(t0[m] == k);
                        }
                        if t0.contains(k) {
                            let m = t0.index_of(k);
                            assert(t1[m] == k);
                        }
                    }
                    assert(self@.peers.contains_key(k) == prev_peers.contains_key(k));
                }
            }
            r = r + 1;
        }
        assert(torm@.take(torm@.len() as int) =~= torm@);
        assert(self@.peers =~= ready_only(old_peers));
    }
}

} // verus!

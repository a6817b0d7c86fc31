use pictionary::lobby::{Lobby, Peer};

fn ready(id: u32, name: &str) -> Peer {
    let mut p = Peer::new_remote(id);
    p.name = name.to_string();
    p.is_ready = true;
    p
}

#[test]
fn a_new_room_is_empty_and_open() {
    let l = Lobby::new_room("room1".to_string());
    assert_eq!(l.roomid, "room1");
    assert_eq!(l.selfid, 0);
    assert!(l.peers.is_empty());
    assert!(!l.sealed);
    assert_eq!(l.turn, 0);
    assert_eq!(l.word, "");
}

#[test]
fn a_lobby_with_self_holds_only_this_client_ready() {
    let l = Lobby::new_with_self(7, "ann".to_string());
    assert_eq!(l.selfid, 7);
    assert_eq!(l.peers.len(), 1);
    let me = &l.peers[&7];
    assert!(me.is_self);
    assert!(me.is_ready);
    assert!(!me.guessed);
    assert_eq!(me.name, "ann");
}

#[test]
fn a_remote_peer_starts_unready_and_unconnected() {
    let p = Peer::new_remote(3);
    assert_eq!(p.id, 3);
    assert!(!p.is_self);
    assert!(!p.is_ready);
    assert!(!p.connected);
    assert!(!p.has_channel);
    assert!(!p.guessed);
    assert_eq!(p.name, "");
}

#[test]
fn peer_ids_lists_each_peer_once() {
    let mut l = Lobby::new_with_self(1, "a".to_string());
    l.put_peer(2, Peer::new_remote(2));
    l.put_peer(5, Peer::new_remote(5));
    l.put_peer(2, Peer::new_remote(2));
    let mut ids = l.peer_ids();
    ids.sort();
    assert_eq!(ids, vec![1, 2, 5]);
}

#[test]
fn take_peer_removes_and_returns_it() {
    let mut l = Lobby::new_with_self(1, "a".to_string());
    l.put_peer(4, ready(4, "bo"));
    let p = l.take_peer(4).unwrap();
    assert_eq!(p.name, "bo");
    assert!(!l.peers.contains_key(&4));
    assert!(l.take_peer(4).is_none());
}

#[test]
fn mark_guessed_only_for_known_peers() {
    let mut l = Lobby::new_with_self(1, "a".to_string());
    l.put_peer(2, Peer::new_remote(2));
    assert!(l.mark_guessed(2));
    assert!(l.peers[&2].guessed);
    assert!(!l.peers[&1].guessed);
    assert!(!l.mark_guessed(9));
    assert_eq!(l.peers.len(), 2);
}

#[test]
fn mark_ready_names_a_known_peer() {
    let mut l = Lobby::new_with_self(1, "a".to_string());
    l.put_peer(2, Peer::new_remote(2));
    l.mark_ready(2, "bob".to_string());
    assert!(l.peers[&2].is_ready);
    assert_eq!(l.peers[&2].name, "bob");
    l.mark_ready(8, "nobody".to_string());
    assert!(!l.peers.contains_key(&8));
}

#[test]
fn mark_connected_and_channel() {
    let mut l = Lobby::new_with_self(1, "a".to_string());
    l.put_peer(2, Peer::new_remote(2));
    assert_eq!(l.mark_channel(2), Some(false));
    assert!(l.peers[&2].has_channel);
    l.mark_connected(2);
    assert!(l.peers[&2].connected);
    assert_eq!(l.mark_channel(2), Some(true));
    assert_eq!(l.mark_channel(3), None);
}

#[test]
fn reset_guessed_clears_everyone() {
    let mut l = Lobby::new_with_self(1, "a".to_string());
    l.put_peer(2, Peer::new_remote(2));
    l.mark_guessed(1);
    l.mark_guessed(2);
    l.reset_guessed();
    assert!(l.peers.values().all(|p| !p.guessed));
    assert_eq!(l.peers.len(), 2);
}

#[test]
fn remove_non_ready_keeps_the_ready_ones() {
    let mut l = Lobby::new_with_self(1, "a".to_string());
    l.put_peer(2, Peer::new_remote(2));
    l.put_peer(3, ready(3, "cy"));
    l.remove_non_ready();
    let mut ids: Vec<u32> = l.peers.keys().copied().collect();
    ids.sort();
    assert_eq!(ids, vec![1, 3]);
    assert_eq!(l.peers[&3].name, "cy");
}

#[test]
fn snapshot_and_duplicate_copy_everything() {
    let mut l = Lobby::new_with_self(1, "a".to_string());
    l.word = "cat".to_string();
    l.turn = 4;
    let s = l.snapshot();
    assert_eq!(s.word, "cat");
    assert_eq!(s.turn, 4);
    assert_eq!(s.peers.len(), 1);
    let p = ready(6, "dee");
    let q = p.duplicate();
    assert_eq!(q.name, "dee");
    assert!(q.is_ready);
    let me = Peer::new_self(9, "me".to_string());
    assert!(me.is_self && me.is_ready);
}

//! The chat panel: the chat lines, newest first, and the voice chunks that
//! wait their turn to play, at most six at a time, the oldest dropped first.

use vstd::prelude::*;

verus! {

/// A recorded piece of voice and its media type.
#[derive(Clone, Debug)]
pub struct AudioChunk {
    pub data: Vec<u8>,
    pub type_: String,
}

/// How many chunks wait at most.
pub open spec fn queue_cap() -> nat {
    6
}

/// The chunks after one more arrives: it waits last, and the oldest goes
/// when more than six would wait.
pub open spec fn with_chunk(chunks: Seq<AudioChunk>, c: AudioChunk) -> Seq<AudioChunk> {
    if chunks.len() + 1 > queue_cap() {
        chunks.push(c).drop_first()
    } else {
        chunks.push(c)
    }
}

/// The chat panel's state.
pub struct ChatHistory {
    /// The chat lines, newest first: each the sender's name and the text.
    pub history: Vec<(String, String)>,
    /// The voice chunks waiting to play, oldest first.
    pub audiocache: Vec<AudioChunk>,
}

impl ChatHistory {
    pub fn new() -> (c: ChatHistory)
        ensures
            c.history@.len() == 0,
            c.audiocache@.len() == 0,
    {
        ChatHistory { history: Vec::new(), audiocache: Vec::new() }
    }

    /// A chat line arrives: it goes on top (`AddChat`).
    pub fn add_chat(&mut self, name: String, chat: String)
        ensures
            final(self).history@ == seq![(name, chat)] + old(self).history@,
            final(self).audiocache@ == old(self).audiocache@,
    {
        self.history.insert(0, (name, chat));
        assert(self.history@ =~= seq![(name, chat)] + old(self).history@);
    }

    /// A voice chunk arrives (`ReceivedAudio`): it waits last, the oldest
    /// goes when more than six wait; gives back whether to start the player,
    /// which is when nothing listens to it yet or it is paused.
    pub fn received_audio(&mut self, chunk: AudioChunk, has_listener: bool, paused: bool) -> (start: bool)
        ensures
            final(self).audiocache@ == with_chunk(old(self).audiocache@, chunk),
            final(self).history@ == old(self).history@,
            start == (!has_listener || paused),
    {
        self.audiocache.push(chunk);
        if self.audiocache.len() > 6 {
            self.audiocache.remove(0);
            assert(self.audiocache@ =~= old(self).audiocache@.push(chunk).drop_first());
        }
        !has_listener || paused
    }

    /// The chunk to play next, taken off the queue (`AudEnded`).
    pub fn aud_ended(&mut self) -> (c: Option<AudioChunk>)
        ensures
            final(self).history@ == old(self).history@,
            match c {
                Some(x) => old(self).audiocache@.len() > 0 && x == old(self).audiocache@[0]
                    && final(self).audiocache@ == old(self).audiocache@.drop_first(),
                None => old(self).audiocache@.len() == 0 && final(self).audiocache@ == old(self).audiocache@,
            },
    {
        if self.audiocache.len() == 0 {
            None
        } else {
            let c = self.audiocache.remove(0);
            assert(self.audiocache@ =~= old(self).audiocache@.drop_first());
            Some(c)
        }
    }
}

/// A message of the chat panel. A received chunk comes with whether the
/// audio player has a listener yet and whether it is paused.
pub enum Msg {
    AddChat(String, String),
    ReceivedAudio(String, AudioChunk, bool, bool),
    AudEnded,
}

/// What the chat panel asks of the application after a message.
pub struct ChatEffect {
    /// Redraw the panel.
    pub render: bool,
    /// Start the audio player (send `AudEnded` back).
    pub start_player: bool,
    /// The chunk to play now.
    pub play: Option<AudioChunk>,
}

impl ChatHistory {
    /// Takes one message (`update`).
    pub fn update(&mut self, msg: Msg) -> (e: ChatEffect)
        ensures
            match msg {
                Msg::AddChat(name, chat) => {
                    &&& e.render && !e.start_player && e.play is None
                    &&& final(self).history@ == seq![(name, chat)] + old(self).history@
                    &&& final(self).audiocache@ == old(self).audiocache@
                },
                Msg::ReceivedAudio(_, c, has_listener, paused) => {
                    &&& !e.render && e.play is None
                    &&& e.start_player == (!has_listener || paused)
                    &&& final(self).audiocache@ == with_chunk(old(self).audiocache@, c)
                    &&& final(self).audiocache@.last() == c
                    &&& old(self).audiocache@.len() <= queue_cap() ==> final(self).audiocache@.len() <= queue_cap()
                    &&& final(self).history@ == old(self).history@
                },
                Msg::AudEnded => {
                    &&& !e.render && !e.start_player
                    &&& final(self).history@ == old(self).history@
                    &&& match e.play {
                        Some(x) => old(self).audiocache@.len() > 0 && x == old(self).audiocache@[0]
                            && final(self).audiocache@ == old(self).audiocache@.drop_first(),
                        None => old(self).audiocache@.len() == 0 && final(self).audiocache@
                            == old(self).audiocache@,
                    }
                },
            },
    {
        match msg {
            Msg::AddChat(name, chat) => {
                self.add_chat(name, chat);
                ChatEffect { render: true, start_player: false, play: None }
            },
            Msg::ReceivedAudio(_id, c, has_listener, paused) => {
                let ghost old_cache = self.audiocache@;
                let start = self.received_audio(c, has_listener, paused);
                proof {
                    lemma_queue_stays_bounded_if(old_cache, c);
                }
                ChatEffect { render: false, start_player: start, play: None }
            },
            Msg::AudEnded => {
                let play = self.aud_ended();
                ChatEffect { render: false, start_player: false, play }
            },
        }
    }
}

proof fn lemma_queue_stays_bounded_if(chunks: Seq<AudioChunk>, c: AudioChunk)
    ensures
        with_chunk(chunks, c).last() == c,
        chunks.len() <= queue_cap() ==> with_chunk(chunks, c).len() <= queue_cap(),
{
    let t = chunks.push(c);
    if chunks.len() + 1 > queue_cap() {
        assert(t.drop_first().last() == t.last());
    }
}

/// The voice queue never holds more than six chunks.
pub proof fn lemma_queue_stays_bounded(chunks: Seq<AudioChunk>, c: AudioChunk)
    requires
        chunks.len() <= queue_cap(),
    ensures
        with_chunk(chunks, c).len() <= queue_cap(),
{
}

/// The voice plays in the order it came: a chunk that arrives at a queue
/// with room is played after every chunk already waiting.
pub proof fn lemma_queue_keeps_order(chunks: Seq<AudioChunk>, c: AudioChunk)
    requires
        chunks.len() < queue_cap(),
    ensures
        with_chunk(chunks, c).len() == chunks.len() + 1,
        with_chunk(chunks, c).take(chunks.len() as int) == chunks,
        with_chunk(chunks, c).last() == c,
{
    assert(with_chunk(chunks, c).take(chunks.len() as int) =~= chunks);
}

} // verus!

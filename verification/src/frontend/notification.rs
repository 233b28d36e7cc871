//! The playback of notification sounds.  One sound plays at a time, and a
//! new one replaces it ("last wins"); the output stream asks for audio a
//! chunk at a time and gets the next samples of the sound, or silence when
//! none plays.  The samples are the front end's; this type holds where the
//! playback stands.
use vstd::prelude::*;

verus! {

/// Which samples make the next chunk of audio.
#[derive(Debug, Clone, Copy, PartialEq, Eq, Structural)]
pub enum Chunk {
    /// The samples `start..end` of the sound being played.
    Samples { start: usize, end: usize },
    /// This many samples of silence.
    Silence(usize),
}

/// Where the playback stands: the length of the current sound and the
/// position of its next sample, if a sound is current, and the samples per
/// chunk.
pub struct PlaybackView {
    pub current: Option<(usize, usize)>,
    pub chunk_size: usize,
}

pub struct NotificationPlayback {
    current: Option<(usize, usize)>,
    chunk_size: usize,
}

impl View for NotificationPlayback {
    type V = PlaybackView;

    closed spec fn view(&self) -> PlaybackView {
        PlaybackView { current: self.current, chunk_size: self.chunk_size }
    }
}

/// The position of the current sound lies within it.
pub open spec fn playback_valid(v: PlaybackView) -> bool {
    v.current matches Some((len, pos)) ==> pos <= len
}

/// One chunk of audio: the next samples of the current sound, a chunk's
/// worth or what is left, and the sound stops being current when they reach
/// its end; silence of a chunk's length when no sound, or only a sound
/// played to its end, is current.
pub open spec fn playback_step(v: PlaybackView) -> (PlaybackView, Chunk) {
    match v.current {
        Some((len, pos)) => if pos < len {
            let n = if len - pos < v.chunk_size {
                len - pos
            } else {
                v.chunk_size as int
            };
            let end = (pos + n) as usize;
            (
                PlaybackView {
                    current: if end >= len {
                        None
                    } else {
                        Some((len, end))
                    },
                    chunk_size: v.chunk_size,
                },
                Chunk::Samples { start: pos, end },
            )
        } else {
            (v, Chunk::Silence(v.chunk_size))
        },
        None => (v, Chunk::Silence(v.chunk_size)),
    }
}

/// `k` chunks of audio in a row: where the playback then stands, and the
/// chunks.
pub open spec fn playback_steps(v: PlaybackView, k: nat) -> (PlaybackView, Seq<Chunk>)
    decreases k,
{
    if k == 0 {
        (v, Seq::empty())
    } else {
        let (v1, c) = playback_step(v);
        let (w, cs) = playback_steps(v1, (k - 1) as nat);
        (w, seq![c] + cs)
    }
}

/// The samples of the current sound still to play.
pub open spec fn samples_left(v: PlaybackView) -> int {
    match v.current {
        Some((len, pos)) => len - pos,
        None => 0,
    }
}

/// The number of chunks of at most `size` samples that `rest` samples take.
pub open spec fn chunk_count(rest: nat, size: nat) -> nat
    decreases rest,
{
    if size == 0 || rest == 0 {
        0
    } else if rest <= size {
        1
    } else {
        1 + chunk_count((rest - size) as nat, size)
    }
}

/// The chunks hand out the samples `from..to` in order, each once: each is a
/// non-empty run of at most `size` samples, the first starts at `from`, each
/// starts where the one before ended, and the last ends at `to`.
pub open spec fn covers_in_order(cs: Seq<Chunk>, from: int, to: int, size: int) -> bool {
    &&& cs.len() > 0
    &&& forall|i: int|
        0 <= i < cs.len() ==> (#[trigger] cs[i] matches Chunk::Samples { start, end } && start
            < end <= start + size)
    &&& cs[0] matches Chunk::Samples { start, .. } && start == from
    &&& cs.last() matches Chunk::Samples { end, .. } && end == to
    &&& forall|i: int|
        0 <= i < cs.len() - 1 ==> (#[trigger] cs[i] matches Chunk::Samples { end, .. } && cs[i
            + 1] matches Chunk::Samples { start, .. } && end == start)
}

impl NotificationPlayback {
    #[verifier::type_invariant]
    spec fn inv(&self) -> bool {
        playback_valid(self@)
    }

    /// Nothing plays; audio comes in chunks of `chunk_size` samples.
    pub fn new(chunk_size: usize) -> (p: Self)
        ensures
            p@ == (PlaybackView { current: None, chunk_size }),
    {
        NotificationPlayback { current: None, chunk_size }
    }

    /// A sound of `len` samples becomes current, from its start, in place of
    /// whatever played.
    pub fn play(&mut self, len: usize)
        ensures
            final(self)@ == (PlaybackView { current: Some((len, 0usize)), chunk_size: old(self)@.chunk_size }),
    {
        self.current = Some((len, 0));
    }

    /// The next chunk of audio (see `playback_step`).
    pub fn next_chunk(&mut self) -> (c: Chunk)
        ensures
            (final(self)@, c) == playback_step(old(self)@),
            playback_valid(final(self)@),
    {
        proof {
            use_type_invariant(&*self);
        }
        match self.current {
            Some((len, pos)) => {
                if pos < len {
                    let n = if len - pos < self.chunk_size {
                        len - pos
                    } else {
                        self.chunk_size
                    };
                    let end = pos + n;
                    if end >= len {
                        self.current = None;
                    } else {
                        self.current = Some((len, end));
                    }
                    Chunk::Samples { start: pos, end }
                } else {
                    Chunk::Silence(self.chunk_size)
                }
            },
            None => Chunk::Silence(self.chunk_size),
        }
    }
}

/// A sound played from position `pos` is handed out whole, in order, each
/// sample once, in chunks of at most a chunk's size, after which nothing
/// plays any more.
pub proof fn lemma_sound_played_through(v: PlaybackView)
    requires
        v.chunk_size > 0,
        v.current matches Some((len, pos)) && pos < len,
    ensures
        ({
            let (len, pos) = v.current->0;
            let (w, cs) = playback_steps(v, chunk_count((len - pos) as nat, v.chunk_size as nat));
            &&& w == (PlaybackView { current: None, chunk_size: v.chunk_size })
            &&& covers_in_order(cs, pos as int, len as int, v.chunk_size as int)
        }),
    decreases samples_left(v),
{
    let (len, pos) = v.current->0;
    let size = v.chunk_size;
    let (v1, c) = playback_step(v);
    let k = chunk_count((len - pos) as nat, size as nat);
    if len - pos <= size {
        assert(k == 1);
        assert(v1.current is None);
        let (w, cs) = playback_steps(v, 1);
        assert(playback_steps(v1, 0).1 =~= Seq::<Chunk>::empty());
        assert(cs =~= seq![c]);
    } else {
        let end = (pos + size) as usize;
        assert(v1.current == Some((len, end)));
        assert(k == 1 + chunk_count((len - end) as nat, size as nat));
        lemma_sound_played_through(v1);
        let (w1, cs1) = playback_steps(v1, (k - 1) as nat);
        let (w, cs) = playback_steps(v, k);
        assert(cs =~= seq![c] + cs1);
        assert forall|i: int| 0 <= i < cs.len() implies (#[trigger] cs[i] matches Chunk::Samples {
            start,
            end,
        } && start < end <= start + size) by {
            if i > 0 {
                assert(cs[i] == cs1[i - 1]);
            }
        }
        assert forall|i: int| 0 <= i < cs.len() - 1 implies (#[trigger] cs[i] matches Chunk::Samples {
            end,
            ..
        } && cs[i + 1] matches Chunk::Samples { start, .. } && end == start) by {
            if i > 0 {
                assert(cs[i] == cs1[i - 1]);
                assert(cs[i + 1] == cs1[i]);
            }
        }
    }
}

} // verus!
